use lore_core::git::{
    covers, detect, failure_message, git_at_root, snapshot_tracked, split_pieces, DotGit,
    GitOutput, GitPresence,
};
use lore_core::lock::{
    acquire_timeout, is_contended, timeout_message, AcquireAnswer, AcquireOutcome, AcquireStep,
    Acquisition, LockAttempt, DIRECTORY_LOCK, LOCK_SUFFIX,
};

fn listing(stdout: &[u8]) -> GitOutput {
    GitOutput {
        success: true,
        status: "exit status: 0".to_string(),
        stdout: stdout.to_vec(),
        stderr: Vec::new(),
    }
}

#[test]
fn listed_paths_are_tracked_in_any_case() {
    let presence = detect(&[DotGit::Directory], Some(listing(b"src/code.py\0Art/Hero.PNG\0")));
    assert!(presence.tracks("src/code.py"));
    assert!(presence.tracks("SRC/Code.py"));
    assert!(presence.tracks("art/hero.png"));
    assert!(presence.tracks_lowercase("art/hero.png"));
    assert!(!presence.tracks_lowercase("Art/Hero.PNG"));
    assert!(!presence.tracks("asset.bin"));
    assert!(!presence.tracks(""));
}

#[test]
fn letter_case_goes_by_unicode() {
    let presence = detect(&[DotGit::File], Some(listing("ÉTÉ.txt\0".as_bytes())));
    assert!(presence.tracks("été.txt"));
}

#[test]
fn malformed_names_are_compared_as_text() {
    let presence = detect(&[DotGit::Directory], Some(listing(b"a\xff.bin\0")));
    assert!(presence.tracks("A\u{fffd}.bin"));
}

#[test]
fn a_workspace_without_git_tracks_nothing() {
    let presence = detect(&[DotGit::Missing, DotGit::Missing], None);
    assert!(matches!(presence, GitPresence::Absent));
    assert!(!presence.tracks("src/code.py"));
}

#[test]
fn a_working_tree_above_the_root_covers_it() {
    assert!(covers(&[DotGit::Missing, DotGit::Directory]));
    assert!(covers(&[DotGit::File]));
    assert!(!covers(&[]));
    assert!(git_at_root(DotGit::File));
    assert!(git_at_root(DotGit::Directory));
    assert!(!git_at_root(DotGit::Missing));
}

#[test]
fn a_listing_that_fails_leaves_the_guard_unavailable() {
    assert!(matches!(
        detect(&[DotGit::Directory], None),
        GitPresence::Unavailable
    ));
    let failed = GitOutput {
        success: false,
        status: "exit status: 128".to_string(),
        stdout: b"src/code.py\0".to_vec(),
        stderr: b" fatal: not a git repository\n".to_vec(),
    };
    let message = match snapshot_tracked(&failed) {
        Ok(_) => panic!("a failed listing has no paths"),
        Err(message) => message,
    };
    assert_eq!(
        message,
        "git ls-files failed (exit status: 128): fatal: not a git repository"
    );
    assert_eq!(failure_message("s", " x "), "git ls-files failed (s): x");
    let presence = detect(&[DotGit::Directory], Some(failed));
    assert!(matches!(presence, GitPresence::Unavailable));
    assert!(!presence.tracks("src/code.py"));
}

#[test]
fn pieces_stand_between_zero_bytes() {
    assert_eq!(
        split_pieces(b"a\0bc\0"),
        vec![b"a".to_vec(), b"bc".to_vec(), Vec::new()]
    );
    assert_eq!(split_pieces(b""), vec![Vec::<u8>::new()]);
}

const SECOND: u64 = 1_000_000_000;

/// Drive an acquisition on a lock that stays contended, with a clock that moves as it sleeps.
fn wait_for_contended(timeout_secs: u64) -> (AcquireOutcome, u64) {
    let mut acquisition = Acquisition::new(timeout_secs);
    let mut now_ns = 5 * SECOND;
    loop {
        match acquisition.step() {
            AcquireStep::OpenExisting | AcquireStep::CreateNew => {
                acquisition.answer(AcquireAnswer::Opened { ok: true, now_ns });
            }
            AcquireStep::TryLock => acquisition.answer(AcquireAnswer::Attempted {
                attempt: LockAttempt::Contended,
                now_ns,
            }),
            AcquireStep::PauseBeforeOpen => {
                now_ns += 10_000_000;
                acquisition.answer(AcquireAnswer::Paused);
            }
            AcquireStep::PauseBeforeLock => {
                now_ns += 200_000_000;
                acquisition.answer(AcquireAnswer::Paused);
            }
            AcquireStep::Finished { outcome } => return (outcome, now_ns - 5 * SECOND),
        }
    }
}

#[test]
fn contended_lock_times_out_at_its_deadline() {
    assert_eq!(wait_for_contended(1), (AcquireOutcome::TimedOut, SECOND));
    assert_eq!(wait_for_contended(0), (AcquireOutcome::TimedOut, 0));
}

#[test]
fn lock_that_comes_free_is_held() {
    let mut acquisition = Acquisition::new(10);
    acquisition.answer(AcquireAnswer::Opened { ok: false, now_ns: 0 });
    assert_eq!(acquisition.step(), AcquireStep::CreateNew);
    acquisition.answer(AcquireAnswer::Opened { ok: true, now_ns: 0 });
    acquisition.answer(AcquireAnswer::Attempted {
        attempt: LockAttempt::Contended,
        now_ns: 1,
    });
    assert_eq!(acquisition.step(), AcquireStep::PauseBeforeLock);
    acquisition.answer(AcquireAnswer::Paused);
    acquisition.answer(AcquireAnswer::Attempted {
        attempt: LockAttempt::Acquired,
        now_ns: 20 * SECOND,
    });
    assert_eq!(
        acquisition.step(),
        AcquireStep::Finished {
            outcome: AcquireOutcome::Held
        }
    );
}

#[test]
fn lock_that_fails_is_not_waited_for() {
    let mut acquisition = Acquisition::new(10);
    acquisition.answer(AcquireAnswer::Opened { ok: true, now_ns: 0 });
    acquisition.answer(AcquireAnswer::Attempted {
        attempt: LockAttempt::Failed,
        now_ns: 0,
    });
    assert_eq!(
        acquisition.step(),
        AcquireStep::Finished {
            outcome: AcquireOutcome::LockFailed
        }
    );
}

#[test]
fn lock_file_is_tried_twice() {
    let mut acquisition = Acquisition::new(10);
    let refused = AcquireAnswer::Opened { ok: false, now_ns: 0 };
    acquisition.answer(refused);
    acquisition.answer(refused);
    assert_eq!(acquisition.step(), AcquireStep::PauseBeforeOpen);
    acquisition.answer(AcquireAnswer::Paused);
    assert_eq!(acquisition.step(), AcquireStep::OpenExisting);
    acquisition.answer(refused);
    acquisition.answer(refused);
    assert_eq!(
        acquisition.step(),
        AcquireStep::Finished {
            outcome: AcquireOutcome::OpenFailed
        }
    );
}

#[test]
fn lock_timeout_can_be_overridden() {
    assert_eq!(acquire_timeout(None), 10);
    assert_eq!(acquire_timeout(Some("1")), 1);
    assert_eq!(acquire_timeout(Some("+7")), 7);
    assert_eq!(acquire_timeout(Some("")), 10);
    assert_eq!(acquire_timeout(Some("-1")), 10);
    assert_eq!(acquire_timeout(Some("18446744073709551615")), u64::MAX);
    assert_eq!(acquire_timeout(Some("18446744073709551616")), 10);
}

#[test]
fn contention_is_told_by_platform() {
    assert!(is_contended(false, true, None));
    assert!(!is_contended(false, false, Some(33)));
    assert!(is_contended(true, false, Some(33)));
    assert!(!is_contended(true, true, Some(5)));
    assert!(!is_contended(true, true, None));
}

#[test]
fn lock_names_and_messages() {
    assert_eq!(LOCK_SUFFIX, ".lock");
    assert_eq!(DIRECTORY_LOCK, "lock");
    assert_eq!(
        timeout_message("/repo/lock"),
        "lock /repo/lock is held by another process"
    );
}
