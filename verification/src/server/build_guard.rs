//! Refuses requests from a client built at a different commit than this server.
//!
//! The guard applies to every request rather than per service, because a server without
//! authorization needs the same guard.

use crate::numerals::decimal;
use crate::server::headers::{
    ascii_text, first_values, get, insert, is_header_text, is_visible_text, new_headers, no_values,
    number_value, text_value, value_text,
};
use crate::text::{
    chars_of, contains_text, has_prefix, is_white_space, lemma_contains_middle,
    lemma_tokens_before_space, lemma_tokens_of_word, same_text, split_tokens, starts_with,
    string_of, tokens, views,
};
use crate::version::{
    law_known_commit_is_not_called_unknown, lore_build_sha_is_unknown, lore_build_sha_short,
    short_sha,
};
use http::{HeaderMap, HeaderValue};
use vstd::prelude::*;
use vstd::utf8::encode_utf8;

verus! {

/// The header that carries the status of a call.
pub const GRPC_STATUS_HEADER: &'static str = "grpc-status";

/// The header that carries what is wrong with a call.
pub const GRPC_MESSAGE_HEADER: &'static str = "grpc-message";

/// The header that names the kind of the content.
pub const CONTENT_TYPE_HEADER: &'static str = "content-type";

/// The header that says what the client is.
pub const USER_AGENT_HEADER: &'static str = "user-agent";

/// The kind of content of a call.
pub const CONTENT_TYPE_GRPC: &'static str = "application/grpc";

/// What the guard demands of a client.
#[derive(Clone, Copy, Debug, PartialEq, Eq, Structural)]
pub struct BuildGuardConfig {
    /// Require the client's build commit to equal this server's.
    pub enforce: bool,
    /// Honour a client that explicitly asks to be admitted despite a mismatch.
    pub allow_client_override: bool,
}

impl Default for BuildGuardConfig {
    fn default() -> (r: BuildGuardConfig)
        ensures
            r.enforce,
            r.allow_client_override,
    {
        BuildGuardConfig { enforce: true, allow_client_override: true }
    }
}

/// What the guard decides about a client.
#[derive(Debug, PartialEq, Eq)]
pub enum Verdict {
    Allow,
    /// Mismatched, but the client asked for it and the server permits that.
    AllowOverridden { client: String },
    Deny { message: String },
}

/// What a [`Verdict`] says.
pub enum VerdictView {
    Allow,
    AllowOverridden { client: Seq<char> },
    Deny { message: Seq<char> },
}

impl View for Verdict {
    type V = VerdictView;

    open spec fn view(&self) -> VerdictView {
        match *self {
            Verdict::Allow => VerdictView::Allow,
            Verdict::AllowOverridden { client } => VerdictView::AllowOverridden { client: client@ },
            Verdict::Deny { message } => VerdictView::Deny { message: message@ },
        }
    }
}

/// The position of the first token from `from` on that names a build.
pub open spec fn build_token(agent: Seq<Seq<char>>, from: int) -> Option<int>
    decreases agent.len() - from,
{
    if from >= agent.len() {
        None
    } else if has_prefix(agent[from], "build/"@) {
        Some(from)
    } else {
        build_token(agent, from + 1)
    }
}

/// The build that a user agent advertises: what follows `build/` in the first token that begins
/// so.
pub open spec fn advertised_build(user_agent: Seq<char>) -> Option<Seq<char>> {
    match build_token(tokens(user_agent), 0) {
        Some(i) => Some(tokens(user_agent)[i].skip("build/"@.len() as int)),
        None => None,
    }
}

/// Whether a user agent asks to be admitted despite a mismatch: one of its tokens says so.
pub open spec fn asks_override(user_agent: Seq<char>) -> bool {
    tokens(user_agent).contains("build-override/1"@)
}

/// The build that a user agent advertises.
pub fn build_sha_from_user_agent(user_agent: &str) -> (r: Option<String>)
    ensures
        match r {
            Some(sha) => advertised_build(user_agent@) == Some(sha@),
            None => advertised_build(user_agent@) is None,
        },
{
    let all = split_tokens(user_agent);
    let ghost agent = tokens(user_agent@);
    let mut i: usize = 0;
    while i < all.len()
        invariant
            i <= all@.len(),
            agent == tokens(user_agent@),
            views(all@) == agent,
            build_token(agent, 0) == build_token(agent, i as int),
        decreases all@.len() - i,
    {
        let chars = chars_of(all[i].as_str());
        assert(agent[i as int] == chars@);
        if starts_with(chars.as_slice(), "build/") {
            let prefix = chars_of("build/");
            let sha = string_of(chars.as_slice(), prefix.len(), chars.len());
            assert(sha@ =~= chars@.skip("build/"@.len() as int));
            return Some(sha);
        }
        i = i + 1;
    }
    assert(agent.len() == all@.len());
    None
}

/// Whether a user agent asks to be admitted despite a mismatch.
pub fn user_agent_requests_override(user_agent: &str) -> (r: bool)
    ensures
        r == asks_override(user_agent@),
{
    let all = split_tokens(user_agent);
    let ghost agent = tokens(user_agent@);
    let mut i: usize = 0;
    while i < all.len()
        invariant
            i <= all@.len(),
            agent == tokens(user_agent@),
            views(all@) == agent,
            forall|k: int| 0 <= k < i ==> agent[k] != "build-override/1"@,
        decreases all@.len() - i,
    {
        assert(agent[i as int] == all@[i as int]@);
        if same_text(all[i].as_str(), "build-override/1") {
            assert(agent.contains(agent[i as int]));
            return true;
        }
        i = i + 1;
    }
    assert(agent.len() == all@.len());
    false
}

/// What a client says as text, where it says something.
pub open spec fn said_view(said: Option<&str>) -> Option<Seq<char>> {
    match said {
        Some(said) => Some(said@),
        None => None,
    }
}

/// The build that a client advertises, if it advertises one.
pub open spec fn client_build(user_agent: Option<Seq<char>>) -> Option<Seq<char>> {
    match user_agent {
        Some(user_agent) => advertised_build(user_agent),
        None => None,
    }
}

/// Whether a client asks to be admitted despite a mismatch.
pub open spec fn client_asks_override(user_agent: Option<Seq<char>>) -> bool {
    match user_agent {
        Some(user_agent) => asks_override(user_agent),
        None => false,
    }
}

/// The build of a client in words.
pub open spec fn client_description(client: Option<Seq<char>>) -> Seq<char> {
    match client {
        Some(client) => client,
        None => "unknown"@,
    }
}

/// What a client is told that is denied.
pub open spec fn denial(client: Seq<char>, server: Seq<char>) -> Seq<char> {
    "lore build mismatch: client "@ + client + ", server "@ + server
        + ". Deploy matching builds, or set LORE_ALLOW_BUILD_MISMATCH=1 on the client to override."@
}

/// What the guard decides about a client that advertises the given build, if any, and asks to be
/// admitted despite a mismatch or does not, on a server of the given build commit.
pub open spec fn decided(
    config: BuildGuardConfig,
    build_sha: Seq<char>,
    client: Option<Seq<char>>,
    asks_override: bool,
) -> VerdictView {
    if !config.enforce {
        VerdictView::Allow
    } else if build_sha != "unknown"@ && client == Some(short_sha(build_sha)) {
        VerdictView::Allow
    } else if config.allow_client_override && asks_override {
        VerdictView::AllowOverridden { client: client_description(client) }
    } else {
        VerdictView::Deny { message: denial(client_description(client), short_sha(build_sha)) }
    }
}

/// What the guard decides about a client by its user agent.
pub open spec fn judged(
    config: BuildGuardConfig,
    build_sha: Seq<char>,
    user_agent: Option<Seq<char>>,
) -> VerdictView {
    decided(config, build_sha, client_build(user_agent), client_asks_override(user_agent))
}

/// What a client is told that is denied.
fn denial_message(client: &str, server: &str) -> (r: String)
    ensures
        r@ == denial(client@, server@),
{
    let mut message = "lore build mismatch: client ".to_owned();
    message.append(client);
    message.append(", server ");
    message.append(server);
    message.append(
        ". Deploy matching builds, or set LORE_ALLOW_BUILD_MISMATCH=1 on the client to override.",
    );
    message
}

/// Decide whether a peer may proceed, given the build it advertises, if any, and whether it asks to
/// be admitted despite a mismatch, on a server of the given build commit.
///
/// A server that cannot name its own commit matches no client, rather than agreeing with whatever
/// it is talking to: a client passes there only by an override.
pub fn decide(
    config: &BuildGuardConfig,
    build_sha: &str,
    client: Option<&str>,
    asks_override: bool,
) -> (r: Verdict)
    ensures
        r@ == decided(*config, build_sha@, said_view(client), asks_override),
{
    if !config.enforce {
        return Verdict::Allow;
    }
    let server = lore_build_sha_short(build_sha);
    if let Some(sha) = client {
        if !lore_build_sha_is_unknown(build_sha) && same_text(sha, server.as_str()) {
            return Verdict::Allow;
        }
    }
    let description = match client {
        Some(sha) => sha.to_owned(),
        None => "unknown".to_owned(),
    };
    if config.allow_client_override && asks_override {
        return Verdict::AllowOverridden { client: description };
    }
    Verdict::Deny { message: denial_message(description.as_str(), server.as_str()) }
}

/// Decide whether a peer may proceed, given its user agent, on a server of the given build commit.
pub fn evaluate(config: &BuildGuardConfig, build_sha: &str, user_agent: Option<&str>) -> (r: Verdict)
    ensures
        r@ == judged(*config, build_sha@, said_view(user_agent)),
{
    let (client, asks_override) = match user_agent {
        Some(user_agent) => (
            build_sha_from_user_agent(user_agent),
            user_agent_requests_override(user_agent),
        ),
        None => (None, false),
    };
    match &client {
        Some(client) => decide(config, build_sha, Some(client.as_str()), asks_override),
        None => decide(config, build_sha, None, asks_override),
    }
}

/// The number of the status "failed precondition", by `tonic::Code`.
#[verifier::external_body]
fn failed_precondition() -> (r: i32)
    ensures
        r == 9,
{
    tonic::Code::FailedPrecondition as i32
}

/// The headers of a denial: the kind of content, the status, and what is wrong, where that can
/// stand in a header.
pub open spec fn denial_headers(message: Seq<char>) -> Map<Seq<char>, Seq<u8>> {
    let status = no_values().insert(
        CONTENT_TYPE_HEADER@,
        encode_utf8(CONTENT_TYPE_GRPC@),
    ).insert(GRPC_STATUS_HEADER@, encode_utf8(decimal(9)));
    if is_header_text(encode_utf8(message)) {
        status.insert(GRPC_MESSAGE_HEADER@, encode_utf8(message))
    } else {
        status
    }
}

/// The headers of a trailers-only error response, which is how a rejection before the service is
/// reached must be reported.
pub fn deny_headers(message: &str) -> (r: HeaderMap<HeaderValue>)
    ensures
        first_values(r) == denial_headers(message@),
{
    proof {
        reveal_strlit("grpc-status");
        reveal_strlit("grpc-message");
        reveal_strlit("content-type");
        reveal_strlit("application/grpc");
        vstd::utf8::is_ascii_chars_encode_utf8(CONTENT_TYPE_GRPC@);
    }
    let mut headers = new_headers();
    if let Some(value) = text_value(CONTENT_TYPE_GRPC) {
        insert(&mut headers, CONTENT_TYPE_HEADER, value);
    }
    insert(&mut headers, GRPC_STATUS_HEADER, number_value(failed_precondition()));
    if let Some(value) = text_value(message) {
        insert(&mut headers, GRPC_MESSAGE_HEADER, value);
    }
    headers
}

/// The user agent that headers name, where it is visible text.
pub open spec fn named_agent(headers: Map<Seq<char>, Seq<u8>>) -> Option<Seq<char>> {
    if headers.contains_key(USER_AGENT_HEADER@) && is_visible_text(headers[USER_AGENT_HEADER@]) {
        Some(ascii_text(headers[USER_AGENT_HEADER@]))
    } else {
        None
    }
}

/// The user agent that the headers of a request name.
pub fn user_agent(headers: &HeaderMap<HeaderValue>) -> (r: Option<String>)
    ensures
        match r {
            Some(agent) => named_agent(first_values(*headers)) == Some(agent@),
            None => named_agent(first_values(*headers)) is None,
        },
{
    proof {
        reveal_strlit("user-agent");
    }
    match get(headers, USER_AGENT_HEADER) {
        Some(value) => value_text(&value),
        None => None,
    }
}

/// The guard, before it is put in front of a service.
#[derive(Clone, Copy, Debug, PartialEq, Eq, Structural)]
pub struct BuildGuardLayer {
    config: BuildGuardConfig,
}

impl View for BuildGuardLayer {
    type V = BuildGuardConfig;

    closed spec fn view(&self) -> BuildGuardConfig {
        self.config
    }
}

impl BuildGuardLayer {
    /// A guard that demands what the configuration says.
    pub fn new(config: BuildGuardConfig) -> (r: BuildGuardLayer)
        ensures
            r@ == config,
    {
        BuildGuardLayer { config }
    }

    /// Put the guard in front of a service.
    pub fn layer<S>(&self, inner: S) -> (r: BuildGuardService<S>)
        ensures
            r@ == (GuardedView { inner, config: self@ }),
    {
        BuildGuardService { inner, config: self.config }
    }
}

/// A service behind the guard.
#[derive(Clone, Debug)]
pub struct BuildGuardService<S> {
    inner: S,
    config: BuildGuardConfig,
}

/// What a [`BuildGuardService`] holds.
pub struct GuardedView<S> {
    pub inner: S,
    pub config: BuildGuardConfig,
}

impl<S> View for BuildGuardService<S> {
    type V = GuardedView<S>;

    closed spec fn view(&self) -> GuardedView<S> {
        GuardedView { inner: self.inner, config: self.config }
    }
}

/// What becomes of a request: it is handed on to the service, or answered with headers alone.
pub enum Admission {
    /// Hand the request on. A client that was admitted despite a mismatch is named.
    Forward { overridden: Option<String> },
    /// Answer with these headers and no body.
    Refuse { message: String, headers: HeaderMap<HeaderValue> },
}

impl<S> BuildGuardService<S> {
    /// The service behind the guard.
    pub fn inner(&self) -> (r: &S)
        ensures
            *r == self@.inner,
    {
        &self.inner
    }

    /// Decide what becomes of a request, given its headers, on a server of the given build commit.
    pub fn call(&self, build_sha: &str, headers: &HeaderMap<HeaderValue>) -> (r: Admission)
        ensures
            ({
                let agent = named_agent(first_values(*headers));
                match judged(self@.config, build_sha@, agent) {
                    VerdictView::Allow => r matches Admission::Forward { overridden: None },
                    VerdictView::AllowOverridden { client } => {
                        r matches Admission::Forward { overridden: Some(named) } && named@ == client
                    },
                    VerdictView::Deny { message } => r matches Admission::Refuse {
                        message: told,
                        headers: answer,
                    } && told@ == message && first_values(answer) == denial_headers(message),
                }
            }),
    {
        let agent = user_agent(headers);
        let verdict = match &agent {
            Some(agent) => evaluate(&self.config, build_sha, Some(agent.as_str())),
            None => evaluate(&self.config, build_sha, None),
        };
        match verdict {
            Verdict::Allow => Admission::Forward { overridden: None },
            Verdict::AllowOverridden { client } => Admission::Forward { overridden: Some(client) },
            Verdict::Deny { message } => {
                let headers = deny_headers(message.as_str());
                Admission::Refuse { message, headers }
            },
        }
    }
}

/// With enforcement off every client is allowed.
pub proof fn law_permissive_guard_allows_anything(
    config: BuildGuardConfig,
    build_sha: Seq<char>,
    client: Option<Seq<char>>,
    asks_override: bool,
)
    requires
        !config.enforce,
    ensures
        decided(config, build_sha, client, asks_override) == VerdictView::Allow,
{
}

/// An enforcing server allows a client outright exactly when it knows its own commit and the client
/// advertises it. A client that advertises no build cannot prove a match, so it is never allowed
/// outright.
pub proof fn law_only_matching_builds_are_allowed(
    config: BuildGuardConfig,
    build_sha: Seq<char>,
    client: Option<Seq<char>>,
    asks_override: bool,
)
    requires
        config.enforce,
    ensures
        decided(config, build_sha, client, asks_override) == VerdictView::Allow <==> build_sha
            != "unknown"@ && client == Some(short_sha(build_sha)),
        client is None ==> decided(config, build_sha, client, asks_override) != VerdictView::Allow,
{
}

/// A build that could not name its own commit never counts as a match on an enforcing server: not
/// as the client's, whatever the server's is, and not as the server's, whatever the client's is.
pub proof fn law_unknown_build_never_matches(
    config: BuildGuardConfig,
    build_sha: Seq<char>,
    client: Option<Seq<char>>,
    asks_override: bool,
)
    requires
        config.enforce,
        build_sha == "unknown"@ || client == Some("unknown"@),
    ensures
        decided(config, build_sha, client, asks_override) != VerdictView::Allow,
{
    if build_sha != "unknown"@ {
        law_known_commit_is_not_called_unknown(build_sha);
    }
}

/// A mismatched client is admitted only when it asks for it and the server permits that.
pub proof fn law_override_needs_both_sides(
    config: BuildGuardConfig,
    build_sha: Seq<char>,
    client: Option<Seq<char>>,
    asks_override: bool,
)
    requires
        decided(config, build_sha, client, asks_override) is AllowOverridden,
    ensures
        config.allow_client_override,
        asks_override,
{
}

/// A denial names the builds of both sides and the way to override it.
pub proof fn law_denial_names_both_sides(
    config: BuildGuardConfig,
    build_sha: Seq<char>,
    client: Option<Seq<char>>,
    asks_override: bool,
)
    ensures
        decided(config, build_sha, client, asks_override) matches VerdictView::Deny { message } ==> {
            &&& contains_text(message, client_description(client))
            &&& contains_text(message, short_sha(build_sha))
            &&& contains_text(message, "LORE_ALLOW_BUILD_MISMATCH"@)
        },
{
    if let VerdictView::Deny { message } = decided(config, build_sha, client, asks_override) {
        let described = client_description(client);
        let server = short_sha(build_sha);
        let head = "lore build mismatch: client "@;
        let middle = ", server "@;
        let advice =
            ". Deploy matching builds, or set LORE_ALLOW_BUILD_MISMATCH=1 on the client to override."@;
        lemma_contains_middle(head, described, middle + server + advice);
        assert(head + described + (middle + server + advice) =~= message);
        lemma_contains_middle(head + described + middle, server, advice);
        reveal_strlit(
            ". Deploy matching builds, or set LORE_ALLOW_BUILD_MISMATCH=1 on the client to override.",
        );
        reveal_strlit("LORE_ALLOW_BUILD_MISMATCH");
        let before = ". Deploy matching builds, or set "@;
        reveal_strlit(". Deploy matching builds, or set ");
        let after = "=1 on the client to override."@;
        reveal_strlit("=1 on the client to override.");
        assert(before + "LORE_ALLOW_BUILD_MISMATCH"@ + after =~= advice);
        let front = head + described + middle + server;
        lemma_contains_middle(front + before, "LORE_ALLOW_BUILD_MISMATCH"@, after);
        assert(front + before + "LORE_ALLOW_BUILD_MISMATCH"@ + after =~= message);
    }
}

/// Whether a text holds no white space.
pub open spec fn is_word(s: Seq<char>) -> bool {
    forall|i: int| 0 <= i < s.len() ==> !is_white_space(#[trigger] s[i])
}

/// A user agent that goes on to name a build.
pub open spec fn agent_naming_build(agent: Seq<char>, sha: Seq<char>) -> Seq<char> {
    agent.push(' ') + ("build/"@ + sha)
}

/// A user agent that goes on to ask for an override.
pub open spec fn agent_asking_override(agent: Seq<char>) -> Seq<char> {
    agent.push(' ') + "build-override/1"@
}

/// The build that a client names is the one that is read back, as long as it named none before.
pub proof fn law_named_build_is_read_back(agent: Seq<char>, sha: Seq<char>)
    requires
        advertised_build(agent) is None,
        is_word(sha),
    ensures
        advertised_build(agent_naming_build(agent, sha)) == Some(sha),
{
    let word = "build/"@ + sha;
    reveal_strlit("build/");
    assert(word.take("build/"@.len() as int) =~= "build/"@);
    lemma_tokens_before_space(agent, ' ');
    lemma_tokens_of_word(agent.push(' '), word);
    lemma_build_token_at_end(tokens(agent), word, 0);
    assert(word.skip("build/"@.len() as int) =~= sha);
}

proof fn lemma_build_token_at_end(agent: Seq<Seq<char>>, word: Seq<char>, from: int)
    requires
        0 <= from <= agent.len(),
        build_token(agent, from) is None,
        has_prefix(word, "build/"@),
    ensures
        build_token(agent.push(word), from) == Some(agent.len() as int),
    decreases agent.len() - from,
{
    if from < agent.len() {
        lemma_build_token_at_end(agent, word, from + 1);
    }
}

/// A client that asks for an override is heard.
pub proof fn law_override_request_is_heard(agent: Seq<char>)
    ensures
        asks_override(agent_asking_override(agent)),
{
    reveal_strlit("build-override/1");
    lemma_tokens_before_space(agent, ' ');
    lemma_tokens_of_word(agent.push(' '), "build-override/1"@);
    assert(tokens(agent).push("build-override/1"@)[tokens(agent).len() as int] == "build-override/1"@);
}

/// A client that names the server's own commit is allowed, as long as the server knows it or does
/// not enforce.
pub proof fn law_client_of_same_build_is_allowed(
    config: BuildGuardConfig,
    build_sha: Seq<char>,
    agent: Seq<char>,
)
    requires
        !config.enforce || build_sha != "unknown"@,
        advertised_build(agent) is None,
        is_word(short_sha(build_sha)),
    ensures
        judged(config, build_sha, Some(agent_naming_build(agent, short_sha(build_sha))))
            == VerdictView::Allow,
{
    law_named_build_is_read_back(agent, short_sha(build_sha));
}

/// A denial is answered with the status "failed precondition" and the content type of a call, and
/// it says what is wrong exactly where that can stand in a header.
pub proof fn law_denial_carries_status_and_message(message: Seq<char>)
    ensures
        ({
            let headers = denial_headers(message);
            &&& headers.contains_key(GRPC_STATUS_HEADER@)
            &&& headers[GRPC_STATUS_HEADER@] == encode_utf8(decimal(9))
            &&& headers.contains_key(CONTENT_TYPE_HEADER@)
            &&& headers[CONTENT_TYPE_HEADER@] == encode_utf8(CONTENT_TYPE_GRPC@)
            &&& headers.contains_key(GRPC_MESSAGE_HEADER@) <==> is_header_text(
                encode_utf8(message),
            )
            &&& headers.contains_key(GRPC_MESSAGE_HEADER@) ==> headers[GRPC_MESSAGE_HEADER@]
                == encode_utf8(message)
        }),
{
    reveal_strlit("grpc-status");
    reveal_strlit("grpc-message");
    reveal_strlit("content-type");
    assert(GRPC_STATUS_HEADER@.len() == 11);
    assert(GRPC_MESSAGE_HEADER@[0] == 'g');
    assert(CONTENT_TYPE_HEADER@[0] == 'c');
}

/// A client is admitted despite a mismatch exactly when the server enforces, the builds do not match,
/// the client asks for it and the server permits that; it is then named by the build it advertises.
/// It is denied exactly when the server enforces, the builds do not match, and it does not ask or the
/// server does not permit.
pub proof fn law_mismatch_is_overridden_or_denied(
    config: BuildGuardConfig,
    build_sha: Seq<char>,
    client: Option<Seq<char>>,
    asks_override: bool,
)
    ensures
        ({
            let mismatch = config.enforce && (build_sha == "unknown"@ || client is None || client->0
                != short_sha(build_sha));
            let named = if client is Some {
                client->0
            } else {
                "unknown"@
            };
            let decision = decided(config, build_sha, client, asks_override);
            &&& !mismatch <==> decision == VerdictView::Allow
            &&& mismatch && config.allow_client_override && asks_override ==> decision == (
            VerdictView::AllowOverridden { client: named })
            &&& mismatch && !(config.allow_client_override && asks_override) ==> decision == (
            VerdictView::Deny {
                message: "lore build mismatch: client "@ + named + ", server "@ + short_sha(
                    build_sha,
                )
                    + ". Deploy matching builds, or set LORE_ALLOW_BUILD_MISMATCH=1 on the client to override."@,
            })
        }),
{
}

/// A client is judged by its user agent alone: without one it advertises no build and asks for
/// nothing.
pub proof fn law_client_is_judged_by_its_user_agent(
    config: BuildGuardConfig,
    build_sha: Seq<char>,
    agent: Seq<char>,
)
    ensures
        judged(config, build_sha, None) == decided(config, build_sha, None, false),
        judged(config, build_sha, Some(agent)) == decided(
            config,
            build_sha,
            advertised_build(agent),
            asks_override(agent),
        ),
{
}

/// A build is advertised by the first token that names one, whatever tokens stand around it; an
/// override is asked for by a token that is exactly the request.
pub proof fn law_user_agents_are_read_token_by_token(
    before: Seq<char>,
    space: char,
    sha: Seq<char>,
    after: Seq<char>,
    word: Seq<char>,
)
    requires
        is_white_space(space),
        is_word(sha),
        is_word(word),
        word.len() > 0,
        !has_prefix(word, "build/"@),
    ensures
        advertised_build(Seq::empty()) is None,
        !asks_override(Seq::empty()),
        advertised_build(before) is None ==> advertised_build(
            before.push(space) + ("build/"@ + sha),
        ) == Some(sha),
        advertised_build(before.push(space) + word) == advertised_build(before),
        asks_override(before.push(space) + word) <==> asks_override(before) || word
            == "build-override/1"@,
        asks_override(before.push(space)) == asks_override(before),
        advertised_build(before.push(space)) == advertised_build(before),
{
    reveal_strlit("build/");
    let named = "build/"@ + sha;
    assert(named.take("build/"@.len() as int) =~= "build/"@);
    assert(named.skip("build/"@.len() as int) =~= sha);
    assert forall|i: int| 0 <= i < named.len() implies !is_white_space(#[trigger] named[i]) by {
        if i >= 6 {
            assert(sha[i - 6] == named[i]);
        }
    }
    lemma_tokens_before_space(before, space);
    lemma_tokens_of_word(before.push(space), named);
    lemma_tokens_of_word(before.push(space), word);
    if advertised_build(before) is None {
        lemma_build_token_at_end(tokens(before), named, 0);
    }
    lemma_other_token_at_end(tokens(before), word, 0);
    let all = tokens(before).push(word);
    assert(all[tokens(before).len() as int] == word);
    if asks_override(before) {
        let i = choose|i: int|
            0 <= i < tokens(before).len() && tokens(before)[i] == "build-override/1"@;
        assert(all[i] == "build-override/1"@);
    }
    if asks_override(before.push(space) + word) {
        let i = choose|i: int| 0 <= i < all.len() && all[i] == "build-override/1"@;
        if i < tokens(before).len() {
            assert(tokens(before)[i] == "build-override/1"@);
        }
    }
}

proof fn lemma_other_token_at_end(agent: Seq<Seq<char>>, word: Seq<char>, from: int)
    requires
        0 <= from <= agent.len(),
        !has_prefix(word, "build/"@),
    ensures
        build_token(agent.push(word), from) == build_token(agent, from),
        build_token(agent, from) matches Some(i) ==> from <= i < agent.len(),
    decreases agent.len() - from,
{
    if from < agent.len() {
        lemma_other_token_at_end(agent, word, from + 1);
    } else {
        assert(build_token(agent.push(word), from + 1) is None);
    }
}

/// The user agent of a request is what its header says in visible characters, one for each byte; a
/// header with other bytes, or none, names no user agent.
pub proof fn law_user_agent_is_what_its_header_says(headers: Map<Seq<char>, Seq<u8>>, i: int)
    ensures
        ({
            let said = headers["user-agent"@];
            let visible = forall|k: int|
                0 <= k < said.len() ==> (32 <= #[trigger] said[k] && said[k] < 127) || said[k] == 9;
            &&& named_agent(headers) is Some <==> headers.contains_key("user-agent"@) && visible
            &&& named_agent(headers) matches Some(agent) ==> agent.len() == said.len() && (0 <= i
                < said.len() ==> agent[i] as int == said[i])
        }),
{
}

/// A denial has the headers of a call that failed, under the names that clients look for, and none
/// besides.
pub proof fn law_denial_has_the_headers_of_a_failed_call(message: Seq<char>, name: Seq<char>)
    ensures
        ({
            let headers = denial_headers(message);
            &&& headers["content-type"@] == encode_utf8("application/grpc"@)
            &&& headers["grpc-status"@] == encode_utf8("9"@)
            &&& headers.contains_key(name) <==> name == "content-type"@ || name == "grpc-status"@
                || (name == "grpc-message"@ && is_header_text(encode_utf8(message)))
        }),
{
    law_denial_carries_status_and_message(message);
    reveal_strlit("9");
    assert(decimal(9) =~= "9"@);
    reveal_strlit("grpc-status");
    reveal_strlit("grpc-message");
    reveal_strlit("content-type");
    assert("grpc-status"@.len() == 11);
    assert("grpc-message"@.len() == 12);
    assert("content-type"@[0] == 'c');
    assert("grpc-message"@[0] == 'g');
}

} // verus!
