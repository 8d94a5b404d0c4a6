# lore_core

The verified core of Lore: what a workspace and its server decide and compute, with the contracts
that Verus proves. A Lore workspace can be mounted as a virtual file system that hydrates its files
on demand, shared with a git working tree, and served to clients of the same build.

## Layout

- `src/vfs` — the virtual file system: path resolution (`resolve`), directory enumeration
  (`listing`), content reads (`content`), cache warming (`prefetch`), and the state of a FUSE mount
  (`fuse`, with `inodes`, `handles`, `attr`, `directory`, `mount`, `paths`, `reconcile`). What holds
  across operations is stated in `laws`.
- `src/projfs` — the callbacks of the Windows Projected File System: enumeration sessions, sorted
  listings, placeholders, file data, what a change on disk is reported as, and startup. What a
  whole enumeration comes to is stated in `laws`.
- `src/server` — the build guard, the storage opcodes and their errors, and the stores a service is
  made of.
- `src/git`, `src/lock`, `src/version`, `src/build_info` — the cross-VCS guard, bounded waiting for
  file locks, and what a build says of itself.
- `src/text`, `src/numerals`, `src/wide`, `src/encoding` — text as the rest needs it.
- `app` — disk, network, threads and the traits of outside crates around the core.
- `tests` — the core run on concrete values.

Operations that alternate between asking the host and deciding are machines: `step()` says what to
ask next, `answer(..)` takes the answer. Their laws say what they come to, whatever the host
answers.

## What is trusted

Calls into outside crates stand in small wrappers whose contracts are believed:
`projfs/sessions` (dashmap), `projfs/serve` (uuid), `server/headers` (http), `server/build_guard`
(tonic), `encoding` (UTF-8 and letter case of the standard library). `text` and `wide` each give one
function of the standard library a contract.
