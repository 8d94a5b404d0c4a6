//! What the provider settles before it serves, and the callbacks that ask about a single path.

use crate::projfs::enumeration::ERROR_FILE_NOT_FOUND;
use crate::projfs::win32::{
    padded_id, placeholder_info, reports, PlaceholderInfo, MAX_FILETIME_MS, PLACEHOLDER_ID_LENGTH,
};
use crate::text::same_text;
use crate::vfs::tree::{all_zero, node_kind, ResolvedNode};
use vstd::prelude::*;

verus! {

/// Whether file accesses are logged: the variable asks for it, and nothing is prefetched.
pub fn file_log_enabled(variable: Option<&str>, prefetching: bool) -> (r: bool)
    ensures
        r == (variable matches Some(value) && value@ == "1"@ && !prefetching),
{
    match variable {
        Some(value) => same_text(value, "1") && !prefetching,
        None => false,
    }
}

/// The number of threads that serve callbacks: as many as the machine runs in parallel, within
/// bounds.
pub fn pool_threads(parallelism: Option<usize>) -> (r: u32)
    ensures
        r == match parallelism {
            Some(n) => if n < 8 {
                8
            } else if n > 32 {
                32
            } else {
                n as int
            },
            None => 8,
        },
        8 <= r <= 32,
{
    match parallelism {
        Some(n) => if n < 8 {
            8
        } else if n > 32 {
            32
        } else {
            n as u32
        },
        None => 8,
    }
}

/// `uuid::Uuid::is_nil` of the identifier with the given bytes: whether all of them are zero.
#[verifier::external_body]
fn is_nil(bytes: [u8; 16]) -> (r: bool)
    ensures
        r == all_zero(bytes@),
{
    uuid::Uuid::from_bytes(bytes).is_nil()
}

/// The bytes of a new identifier, by `uuid::Uuid::now_v7`. They come from the clock and from
/// chance; that the identifier is of version seven and of the standard variant is all that is
/// claimed of them.
#[verifier::external_body]
fn now_v7() -> (r: [u8; 16])
    ensures
        r@[6] / 16 == 7,
        r@[8] / 64 == 2,
{
    uuid::Uuid::now_v7().into_bytes()
}

/// The identifier under which a directory is virtualized.
#[derive(Debug, Clone, Copy)]
pub struct InstanceId {
    pub bytes: [u8; 16],
    /// Whether the directory has yet to be marked and the identifier to be stored.
    pub fresh: bool,
}

/// Whether the stored bytes are an identifier: all sixteen were read, and it is not nil.
pub open spec fn is_stored_id(stored: Option<Seq<u8>>) -> bool {
    match stored {
        Some(bytes) => bytes.len() == 16 && !all_zero(bytes),
        None => false,
    }
}

/// The bytes that were read of the stored identifier, if any could be.
pub open spec fn stored_view(stored: Option<&[u8]>) -> Option<Seq<u8>> {
    match stored {
        Some(bytes) => Some(bytes@),
        None => None,
    }
}

/// The stored identifier, where there is one.
fn stored_id(stored: Option<&[u8]>) -> (r: Option<[u8; 16]>)
    ensures
        match r {
            Some(id) => is_stored_id(stored_view(stored)) && id@ == stored->0@,
            None => !is_stored_id(stored_view(stored)),
        },
{
    if let Some(bytes) = stored {
        if bytes.len() == 16 {
            let mut id: [u8; 16] = [0;16];
            let mut i: usize = 0;
            while i < 16
                invariant
                    i <= 16,
                    bytes@.len() == 16,
                    forall|k: int| 0 <= k < i ==> id@[k] == bytes@[k],
                decreases 16 - i,
            {
                id[i] = bytes[i];
                i = i + 1;
            }
            assert(id@ =~= bytes@);
            if !is_nil(id) {
                return Some(id);
            }
        }
    }
    None
}

/// The identifier for a directory: the stored one, or else the given new one.
pub fn instance_id_or(stored: Option<&[u8]>, new: [u8; 16]) -> (r: InstanceId)
    ensures
        r.fresh == !is_stored_id(stored_view(stored)),
        r.bytes@ == if is_stored_id(stored_view(stored)) {
            stored->0@
        } else {
            new@
        },
{
    match stored_id(stored) {
        Some(bytes) => InstanceId { bytes, fresh: false },
        None => InstanceId { bytes: new, fresh: true },
    }
}

/// The identifier for a directory: the stored one, or else a new one, which is only drawn where
/// none is stored. It is never nil.
pub fn instance_id(stored: Option<&[u8]>) -> (r: InstanceId)
    ensures
        r.fresh == !is_stored_id(stored_view(stored)),
        !r.fresh ==> r.bytes@ == stored->0@,
        r.fresh ==> r.bytes@[6] / 16 == 7 && r.bytes@[8] / 64 == 2,
        !all_zero(r.bytes@),
{
    match stored_id(stored) {
        Some(bytes) => InstanceId { bytes, fresh: false },
        None => {
            let r = instance_id_or(stored, now_v7());
            assert(r.bytes@[6] != 0);
            r
        },
    }
}

/// Why serving did not start.
#[derive(Debug, Clone, Copy, PartialEq, Eq, Structural)]
pub enum StartupFailure {
    /// The platform has no projected file system.
    Unsupported,
    /// The repository has no directory.
    NoRepositoryPath,
    /// The repository's directory could not be entered.
    CannotEnterRepository,
    /// The directory could not be marked as a placeholder.
    CannotMark { code: i32 },
    /// The new identifier could not be stored.
    CannotStoreId,
    /// Virtualization could not be started.
    CannotStart { code: i32 },
}

/// What the provider does next before it serves.
#[derive(Debug, Clone, Copy)]
pub enum StartupStep {
    CheckSupport,
    LocateRepository,
    EnterRepository,
    ReadInstanceId,
    MarkDirectory { id: InstanceId },
    StoreInstanceId { id: InstanceId },
    StartVirtualizing { id: InstanceId },
    /// Callbacks are served from now on.
    Serving { id: InstanceId },
    Stopped { failure: StartupFailure },
}

/// What came of a step.
#[derive(Debug, Clone, Copy)]
pub enum StartupAnswer {
    /// The step succeeded or did not.
    Done { ok: bool },
    /// The system answered with a code; zero is success.
    Code { code: i32 },
    /// The identifier that was found or made.
    Id { id: InstanceId },
}

/// The step that follows another. An answer to something else changes nothing.
pub open spec fn startup_after(step: StartupStep, answer: StartupAnswer) -> StartupStep {
    match (step, answer) {
        (StartupStep::CheckSupport, StartupAnswer::Done { ok }) => if ok {
            StartupStep::LocateRepository
        } else {
            StartupStep::Stopped { failure: StartupFailure::Unsupported }
        },
        (StartupStep::LocateRepository, StartupAnswer::Done { ok }) => if ok {
            StartupStep::EnterRepository
        } else {
            StartupStep::Stopped { failure: StartupFailure::NoRepositoryPath }
        },
        (StartupStep::EnterRepository, StartupAnswer::Done { ok }) => if ok {
            StartupStep::ReadInstanceId
        } else {
            StartupStep::Stopped { failure: StartupFailure::CannotEnterRepository }
        },
        (StartupStep::ReadInstanceId, StartupAnswer::Id { id }) => if id.fresh {
            StartupStep::MarkDirectory { id }
        } else {
            StartupStep::StartVirtualizing { id }
        },
        (StartupStep::MarkDirectory { id }, StartupAnswer::Code { code }) => if code == 0 {
            StartupStep::StoreInstanceId { id }
        } else {
            StartupStep::Stopped { failure: StartupFailure::CannotMark { code } }
        },
        (StartupStep::StoreInstanceId { id }, StartupAnswer::Done { ok }) => if ok {
            StartupStep::StartVirtualizing { id }
        } else {
            StartupStep::Stopped { failure: StartupFailure::CannotStoreId }
        },
        (StartupStep::StartVirtualizing { id }, StartupAnswer::Code { code }) => if code == 0 {
            StartupStep::Serving { id }
        } else {
            StartupStep::Stopped { failure: StartupFailure::CannotStart { code } }
        },
        _ => step,
    }
}

/// Begin to serve.
pub fn serve() -> (r: StartupStep)
    ensures
        r is CheckSupport,
{
    StartupStep::CheckSupport
}

impl StartupStep {
    /// Take note of what came of this step.
    pub fn answer(self, answer: StartupAnswer) -> (r: StartupStep)
        ensures
            r == startup_after(self, answer),
    {
        match (self, answer) {
            (StartupStep::CheckSupport, StartupAnswer::Done { ok }) => if ok {
                StartupStep::LocateRepository
            } else {
                StartupStep::Stopped { failure: StartupFailure::Unsupported }
            },
            (StartupStep::LocateRepository, StartupAnswer::Done { ok }) => if ok {
                StartupStep::EnterRepository
            } else {
                StartupStep::Stopped { failure: StartupFailure::NoRepositoryPath }
            },
            (StartupStep::EnterRepository, StartupAnswer::Done { ok }) => if ok {
                StartupStep::ReadInstanceId
            } else {
                StartupStep::Stopped { failure: StartupFailure::CannotEnterRepository }
            },
            (StartupStep::ReadInstanceId, StartupAnswer::Id { id }) => if id.fresh {
                StartupStep::MarkDirectory { id }
            } else {
                StartupStep::StartVirtualizing { id }
            },
            (StartupStep::MarkDirectory { id }, StartupAnswer::Code { code }) => if code == 0 {
                StartupStep::StoreInstanceId { id }
            } else {
                StartupStep::Stopped { failure: StartupFailure::CannotMark { code } }
            },
            (StartupStep::StoreInstanceId { id }, StartupAnswer::Done { ok }) => if ok {
                StartupStep::StartVirtualizing { id }
            } else {
                StartupStep::Stopped { failure: StartupFailure::CannotStoreId }
            },
            (StartupStep::StartVirtualizing { id }, StartupAnswer::Code { code }) => if code == 0 {
                StartupStep::Serving { id }
            } else {
                StartupStep::Stopped { failure: StartupFailure::CannotStart { code } }
            },
            _ => self,
        }
    }
}

/// What a startup comes to when its steps are answered one after the other.
pub open spec fn startup_run(step: StartupStep, answers: Seq<StartupAnswer>) -> StartupStep
    decreases answers.len(),
{
    if answers.len() == 0 {
        step
    } else {
        startup_run(startup_after(step, answers[0]), answers.skip(1))
    }
}

/// Whether a startup has the directory of an identifier marked by its answer `i`: it stands at that
/// step then, and the system answers with success.
pub open spec fn marks_at(answers: Seq<StartupAnswer>, i: int, id: InstanceId) -> bool {
    &&& 0 <= i < answers.len()
    &&& startup_run(StartupStep::CheckSupport, answers.take(i)) == StartupStep::MarkDirectory { id }
    &&& answers[i] matches StartupAnswer::Code { code } && code == 0
}

/// Whether a startup has an identifier stored by its answer `i`.
pub open spec fn stores_at(answers: Seq<StartupAnswer>, i: int, id: InstanceId) -> bool {
    &&& 0 <= i < answers.len()
    &&& startup_run(StartupStep::CheckSupport, answers.take(i)) == StartupStep::StoreInstanceId {
        id,
    }
    &&& answers[i] matches StartupAnswer::Done { ok } && ok
}

/// Whether a startup has the directory of an identifier marked, and the identifier stored after
/// that.
pub open spec fn marks_before_storing(answers: Seq<StartupAnswer>, id: InstanceId) -> bool {
    exists|i: int, j: int|
        i < j && #[trigger] marks_at(answers, i, id) && #[trigger] stores_at(answers, j, id)
}

/// Under a new identifier nothing is served unless the system marked the directory for that
/// identifier, and the identifier was stored after that.
pub proof fn law_fresh_directory_is_marked_before_serving(answers: Seq<StartupAnswer>)
    ensures
        startup_run(StartupStep::CheckSupport, answers) matches StartupStep::Serving { id }
            ==> id.fresh ==> marks_before_storing(answers, id),
{
    lemma_startup_marks(answers);
}

/// A startup takes one answer after the other.
proof fn lemma_startup_last(step: StartupStep, answers: Seq<StartupAnswer>)
    requires
        answers.len() > 0,
    ensures
        startup_run(step, answers) == startup_after(
            startup_run(step, answers.drop_last()),
            answers.last(),
        ),
    decreases answers.len(),
{
    if answers.len() > 1 {
        lemma_startup_last(startup_after(step, answers[0]), answers.skip(1));
        assert(answers.skip(1).drop_last() =~= answers.drop_last().skip(1));
    } else {
        assert(answers.drop_last() =~= Seq::empty());
        assert(answers.skip(1) =~= Seq::empty());
        reveal_with_fuel(startup_run, 2);
    }
}

/// What was marked or stored by an answer stays so when another answer follows.
proof fn lemma_startup_extends(answers: Seq<StartupAnswer>, id: InstanceId)
    requires
        answers.len() > 0,
    ensures
        forall|i: int| #[trigger]
            marks_at(answers.drop_last(), i, id) ==> marks_at(answers, i, id),
        marks_before_storing(answers.drop_last(), id) ==> marks_before_storing(answers, id),
{
    let before = answers.drop_last();
    assert forall|i: int| #[trigger] marks_at(before, i, id) implies marks_at(answers, i, id) by {
        assert(before.take(i) =~= answers.take(i));
    }
    if marks_before_storing(before, id) {
        let (i, j) = choose|i: int, j: int|
            i < j && #[trigger] marks_at(before, i, id) && #[trigger] stores_at(before, j, id);
        assert(before.take(j) =~= answers.take(j));
        assert(marks_at(answers, i, id) && stores_at(answers, j, id));
    }
}

/// Whether a startup has the directory of an identifier marked.
spec fn was_marked(answers: Seq<StartupAnswer>, id: InstanceId) -> bool {
    exists|i: int| #[trigger] marks_at(answers, i, id)
}

/// What was marked and stored by the time a startup comes to a step.
spec fn marked_on_the_way(answers: Seq<StartupAnswer>, step: StartupStep) -> bool {
    match step {
        StartupStep::MarkDirectory { id } => id.fresh,
        StartupStep::StoreInstanceId { id } => was_marked(answers, id),
        StartupStep::StartVirtualizing { id } => id.fresh ==> marks_before_storing(answers, id),
        StartupStep::Serving { id } => id.fresh ==> marks_before_storing(answers, id),
        _ => true,
    }
}

proof fn lemma_startup_marks(answers: Seq<StartupAnswer>)
    ensures
        marked_on_the_way(answers, startup_run(StartupStep::CheckSupport, answers)),
    decreases answers.len(),
{
    if answers.len() > 0 {
        let before = answers.drop_last();
        let last = answers.len() - 1;
        let step = startup_run(StartupStep::CheckSupport, before);
        lemma_startup_marks(before);
        lemma_startup_last(StartupStep::CheckSupport, answers);
        assert(answers.take(last) =~= before);
        let next = startup_after(step, answers[last]);
        match step {
            StartupStep::MarkDirectory { id } => {
                if next is StoreInstanceId {
                    assert(marks_at(answers, last, id));
                    assert(was_marked(answers, id));
                }
            },
            StartupStep::StoreInstanceId { id } => {
                lemma_startup_extends(answers, id);
                let i = choose|i: int| #[trigger] marks_at(before, i, id);
                assert(marks_at(answers, i, id));
                if next is StartVirtualizing {
                    assert(stores_at(answers, last, id));
                }
            },
            StartupStep::StartVirtualizing { id } => {
                lemma_startup_extends(answers, id);
            },
            StartupStep::Serving { id } => {
                lemma_startup_extends(answers, id);
            },
            _ => {},
        }
    }
}

/// Whether a path exists, as the code that the callback returns. `rooted` says whether the
/// repository has a directory.
pub fn query_file_name(rooted: bool, resolved: bool) -> (r: i32)
    ensures
        r == if rooted && resolved {
            0
        } else {
            ERROR_FILE_NOT_FOUND
        },
{
    if rooted && resolved {
        0
    } else {
        ERROR_FILE_NOT_FOUND
    }
}

/// The placeholder of a path, or the code that the callback returns.
pub fn get_placeholder_info(
    rooted: bool,
    resolved: Option<ResolvedNode>,
    timestamp_ms: u64,
    repository_id: &[u8],
) -> (r: Result<PlaceholderInfo, i32>)
    requires
        timestamp_ms <= MAX_FILETIME_MS,
        repository_id@.len() <= PLACEHOLDER_ID_LENGTH,
    ensures
        match r {
            Ok(info) => {
                &&& rooted
                &&& resolved matches Some(resolved)
                &&& reports(
                    info.basic,
                    node_kind(resolved.node),
                    resolved.node.size,
                    timestamp_ms,
                )
                &&& info.provider_id@ == padded_id(repository_id@)
                &&& info.content_id@ == padded_id(resolved.node.hash@)
            },
            Err(code) => !(rooted && resolved is Some) && code == ERROR_FILE_NOT_FOUND,
        },
{
    if !rooted {
        return Err(ERROR_FILE_NOT_FOUND);
    }
    match resolved {
        Some(resolved) => {
            let content_hash: &[u8] = resolved.node.hash.data.as_slice();
            Ok(
                placeholder_info(
                    resolved.kind(),
                    resolved.size(),
                    timestamp_ms,
                    repository_id,
                    content_hash,
                ),
            )
        },
        None => Err(ERROR_FILE_NOT_FOUND),
    }
}

/// A startup goes through its steps in order, each after the one before it succeeded, and stops at
/// the first that does not, saying which it was.
pub proof fn law_startup_goes_step_by_step(id: InstanceId, code: i32)
    ensures
        ({
            let done = |step: StartupStep, ok: bool|
                startup_after(step, StartupAnswer::Done { ok });
            let coded = |step: StartupStep, code: i32|
                startup_after(step, StartupAnswer::Code { code });
            let marking = StartupStep::MarkDirectory { id };
            let storing = StartupStep::StoreInstanceId { id };
            let starting = StartupStep::StartVirtualizing { id };
            &&& done(StartupStep::CheckSupport, true) == StartupStep::LocateRepository
            &&& done(StartupStep::LocateRepository, true) == StartupStep::EnterRepository
            &&& done(StartupStep::EnterRepository, true) == StartupStep::ReadInstanceId
            &&& startup_after(StartupStep::ReadInstanceId, StartupAnswer::Id { id }) == if id.fresh {
                marking
            } else {
                starting
            }
            &&& coded(marking, 0) == storing
            &&& done(storing, true) == starting
            &&& coded(starting, 0) == (StartupStep::Serving { id })
            &&& done(StartupStep::CheckSupport, false) == (StartupStep::Stopped {
                failure: StartupFailure::Unsupported,
            })
            &&& done(StartupStep::LocateRepository, false) == (StartupStep::Stopped {
                failure: StartupFailure::NoRepositoryPath,
            })
            &&& done(StartupStep::EnterRepository, false) == (StartupStep::Stopped {
                failure: StartupFailure::CannotEnterRepository,
            })
            &&& done(storing, false) == (StartupStep::Stopped {
                failure: StartupFailure::CannotStoreId,
            })
            &&& code != 0 ==> coded(marking, code) == (StartupStep::Stopped {
                failure: StartupFailure::CannotMark { code },
            })
            &&& code != 0 ==> coded(starting, code) == (StartupStep::Stopped {
                failure: StartupFailure::CannotStart { code },
            })
        }),
{
}

/// Stored bytes are an identifier exactly when there are sixteen of them and not all are zero.
pub proof fn law_stored_identifier_is_sixteen_bytes(bytes: Seq<u8>)
    ensures
        is_stored_id(Some(bytes)) <==> bytes.len() == 16 && exists|i: int|
            0 <= i < 16 && #[trigger] bytes[i] != 0,
        !is_stored_id(None),
{
}

} // verus!
