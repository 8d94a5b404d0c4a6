//! How a workspace is mounted.

use vstd::prelude::*;

verus! {

/// Kernel-level mount options for a virtual workspace. All default to off, which gives a mount
/// only its own uid can traverse. Hosts that serve a mount to other uids (a container runtime, a
/// CSI node driver) need `allow_other`.
#[derive(Debug, Clone, Copy, PartialEq, Eq, Structural)]
pub struct VfsMountOptions {
    /// Let uids other than the mounting one access the mount (`allow_other`). For a non-root
    /// mounting user this additionally requires `user_allow_other` in `/etc/fuse.conf`.
    pub allow_other: bool,
    /// Let the kernel unmount when the serving process dies (`auto_unmount`), rather than leaving
    /// a mountpoint that returns `ENOTCONN`. FUSE requires `allow_other` (here, or via
    /// `user_allow_other` in `/etc/fuse.conf`) for this to be accepted.
    pub auto_unmount: bool,
    /// Mount read-only (`ro`), rejecting writes at the kernel boundary.
    pub read_only: bool,
}

impl Default for VfsMountOptions {
    fn default() -> (r: VfsMountOptions)
        ensures
            !r.allow_other,
            !r.auto_unmount,
            !r.read_only,
    {
        VfsMountOptions { allow_other: false, auto_unmount: false, read_only: false }
    }
}

/// Who can access a mount.
#[derive(Debug, Clone, Copy, PartialEq, Eq, Structural)]
pub enum SessionAcl {
    /// Only the mounting user.
    Owner,
    /// Every user.
    All,
}

/// A flag that the kernel is handed when the mount is established.
#[derive(Debug, Clone, Copy, PartialEq, Eq, Structural)]
pub enum MountFlag {
    /// Show the file system under the name "lore".
    Name,
    /// Unmount when the serving process dies.
    AutoUnmount,
    /// Reject writes.
    ReadOnly,
}

/// How a mount is established.
#[derive(Debug)]
pub struct MountConfig {
    pub acl: SessionAcl,
    pub flags: Vec<MountFlag>,
    /// The size of the worker pool.
    pub threads: usize,
}

/// The flags that mount options ask for: the name always comes first.
pub open spec fn mount_flags(options: VfsMountOptions) -> Seq<MountFlag> {
    let named = seq![MountFlag::Name];
    let unmounting = if options.auto_unmount {
        named.push(MountFlag::AutoUnmount)
    } else {
        named
    };
    if options.read_only {
        unmounting.push(MountFlag::ReadOnly)
    } else {
        unmounting
    }
}

/// The size of the worker pool: as many as the machine runs in parallel, within bounds.
pub open spec fn worker_threads(parallelism: Option<usize>) -> usize {
    match parallelism {
        Some(n) => if n < 4 {
            4
        } else if n > 16 {
            16
        } else {
            n
        },
        None => 4,
    }
}

/// The configuration that mount options ask for, on a machine of the given parallelism.
///
/// `allow_other` is expressed through the session ACL, not as a flag. The worker pool is bounded
/// so that multiple hydrating reads proceed concurrently rather than serializing on one thread.
pub fn mount_config(options: VfsMountOptions, parallelism: Option<usize>) -> (r: MountConfig)
    ensures
        r.acl == if options.allow_other {
            SessionAcl::All
        } else {
            SessionAcl::Owner
        },
        r.flags@ == mount_flags(options),
        r.threads == worker_threads(parallelism),
        4 <= r.threads <= 16,
{
    let acl = if options.allow_other {
        SessionAcl::All
    } else {
        SessionAcl::Owner
    };
    let mut flags: Vec<MountFlag> = Vec::new();
    flags.push(MountFlag::Name);
    if options.auto_unmount {
        flags.push(MountFlag::AutoUnmount);
    }
    if options.read_only {
        flags.push(MountFlag::ReadOnly);
    }
    assert(flags@ =~= mount_flags(options));
    let threads: usize = match parallelism {
        Some(n) => if n < 4 {
            4
        } else if n > 16 {
            16
        } else {
            n
        },
        None => 4,
    };
    MountConfig { acl, flags, threads }
}

/// A mount is named, unmounts itself exactly when asked to, and rejects writes exactly when asked to;
/// it has no other flag.
pub proof fn law_mount_has_the_flags_it_asks_for(options: VfsMountOptions)
    ensures
        mount_flags(options).len() > 0,
        mount_flags(options)[0] == MountFlag::Name,
        mount_flags(options).contains(MountFlag::AutoUnmount) <==> options.auto_unmount,
        mount_flags(options).contains(MountFlag::ReadOnly) <==> options.read_only,
        mount_flags(options).no_duplicates(),
{
    let flags = mount_flags(options);
    if options.auto_unmount {
        assert(flags[1] == MountFlag::AutoUnmount);
    }
    if options.read_only {
        assert(flags[flags.len() - 1] == MountFlag::ReadOnly);
    }
}

/// As many workers serve a mount as the machine runs in parallel, but no fewer than four and no more
/// than sixteen; four where the machine does not tell.
pub proof fn law_workers_follow_the_machine(n: usize)
    ensures
        4 <= n <= 16 ==> worker_threads(Some(n)) == n,
        n <= 4 ==> worker_threads(Some(n)) == 4,
        n >= 16 ==> worker_threads(Some(n)) == 16,
        worker_threads(None) == 4,
{
}

} // verus!
