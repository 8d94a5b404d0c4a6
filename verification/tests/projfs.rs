use lore_core::projfs::enumeration::{
    EnumerationInstance, Scan, ScanTarget, ERROR_FILE_NOT_FOUND, ERROR_INSUFFICIENT_BUFFER,
};
use lore_core::projfs::file_data::{
    begin_transfer, transfer_capacity, TransferStep, ERROR_OUTOFMEMORY, ERROR_READ_FAULT,
};
use lore_core::projfs::notify::{notified, Notification};
use lore_core::projfs::progress::{
    progress_message, scale_bytes, ByteUnit, PrefetchProgress, ScaledBytes,
};
use lore_core::projfs::serve::{
    file_log_enabled, get_placeholder_info, instance_id, instance_id_or, pool_threads,
    query_file_name, serve, InstanceId, StartupAnswer, StartupFailure, StartupStep,
};
use lore_core::projfs::sessions::{context_from_guid, EnumerationSessions};
use lore_core::projfs::win32::{basic_info, ms_filetime, Win32Error};
use lore_core::vfs::content::{finish_read, read_range};
use lore_core::vfs::fuse::ExplicitDirty;
use lore_core::vfs::tree::{ContentHash, DirEntry, EntryKind, Node, ResolvedNode, Source};

fn entry(name: &str, kind: EntryKind, size: u64) -> DirEntry {
    DirEntry {
        name: name.to_string(),
        kind,
        size,
        node: 1,
        timestamp_ms: 1000,
    }
}

fn wide(text: &str) -> Vec<u16> {
    text.encode_utf16().collect()
}

fn narrow(units: &[u16]) -> String {
    String::from_utf16(units)
        .unwrap()
        .trim_end_matches('\0')
        .to_string()
}

/// Compare names without regard to case, as the system does.
fn compare(a: &Vec<u16>, b: &Vec<u16>) -> i32 {
    let a = narrow(a).to_lowercase();
    let b = narrow(b).to_lowercase();
    if a < b {
        -1
    } else if a > b {
        1
    } else {
        0
    }
}

/// Drive one callback with a buffer for `room` entries.
fn callback(
    instance: &mut EnumerationInstance,
    room: usize,
    matches: &dyn Fn(&str) -> bool,
) -> (Vec<String>, i32) {
    let mut given = Vec::new();
    let mut scan = instance.start_scan();
    loop {
        match scan {
            Scan::Testing { index, .. } => {
                let name = narrow(&instance.file[index].file_name);
                scan = instance.matched(scan, matches(&name));
            }
            Scan::Offering { index, .. } => {
                if given.len() == room {
                    scan = instance.filled(scan, ERROR_INSUFFICIENT_BUFFER);
                } else {
                    let (path, _) = instance.offer(index);
                    given.push(narrow(&path));
                    scan = instance.filled(scan, 0);
                }
            }
            Scan::Ended { code } => return (given, code),
        }
    }
}

fn loaded(expression: Option<&[u16]>) -> EnumerationInstance {
    let mut instance = EnumerationInstance::new();
    instance.begin(false, expression, true).unwrap();
    instance.load(
        vec![
            entry("beta.txt", EntryKind::File, 5),
            entry("Alpha", EntryKind::Directory, 0),
            entry("gamma.png", EntryKind::File, 9),
        ],
        compare,
    );
    instance
}

#[test]
fn enumeration_hands_out_sorted_entries_over_several_callbacks() {
    let mut instance = loaded(None);
    let everything = |_: &str| true;
    let (first, code) = callback(&mut instance, 2, &everything);
    assert_eq!((first, code), (vec!["Alpha".to_string(), "beta.txt".to_string()], 0));
    assert!(matches!(instance.begin(false, None, true), Ok(None)));
    let (second, code) = callback(&mut instance, 2, &everything);
    assert_eq!((second, code), (vec!["gamma.png".to_string()], 0));
    let (third, code) = callback(&mut instance, 2, &everything);
    assert_eq!((third, code), (Vec::new(), 0));
    assert!(instance.done);
}

#[test]
fn enumeration_fails_when_no_entry_fits() {
    let mut instance = loaded(Some(&wide("*.png")));
    let pictures = |name: &str| name.ends_with(".png");
    let (given, code) = callback(&mut instance, 0, &pictures);
    assert_eq!((given, code), (Vec::new(), ERROR_INSUFFICIENT_BUFFER));
    let (given, code) = callback(&mut instance, 1, &pictures);
    assert_eq!((given, code), (vec!["gamma.png".to_string()], 0));
}

#[test]
fn enumeration_restarts_on_request() {
    let mut instance = loaded(None);
    let everything = |_: &str| true;
    callback(&mut instance, 9, &everything);
    let target = instance.begin(true, Some(&wide("*")), true).unwrap();
    assert!(matches!(target, Some(ScanTarget::Requested)));
    assert_eq!(instance.search, "");
    assert!(instance.file.is_empty());
    instance.load(vec![entry("new", EntryKind::File, 1)], compare);
    let (given, _) = callback(&mut instance, 9, &everything);
    assert_eq!(given, ["new"]);
}

#[test]
fn enumeration_searches_the_directory_of_its_expression() {
    let mut instance = EnumerationInstance::new();
    let target = instance
        .begin(false, Some(&wide("art/maps/*.png")), true)
        .unwrap();
    match target {
        Some(ScanTarget::Searched(path)) => assert_eq!(path, "art/maps"),
        _ => panic!("the expression names a directory"),
    }
    assert_eq!(instance.search, "/*.png");
    assert_eq!(narrow(&instance.search_wide), "/*.png");
    instance.load(vec![entry("a.png", EntryKind::File, 3)], compare);
    let (path, info) = instance.offer(0);
    assert_eq!(narrow(&path), "art/maps/a.png");
    assert_eq!(path[path.len() - 2..], [0, 0]);
    assert_eq!(info, basic_info(EntryKind::File, 3, 1000));
}

#[test]
fn enumeration_needs_a_repository_directory() {
    let mut instance = EnumerationInstance::new();
    assert!(matches!(
        instance.begin(false, None, false),
        Err(code) if code == ERROR_FILE_NOT_FOUND
    ));
    assert_eq!(ERROR_FILE_NOT_FOUND, 0x80070002u32 as i32);
    assert_eq!(ERROR_INSUFFICIENT_BUFFER, 0x8007007au32 as i32);
}

#[test]
fn sessions_are_kept_by_identifier() {
    let mut sessions = EnumerationSessions::new();
    assert!(sessions.take(7).is_none());
    sessions.start(7);
    let mut instance = sessions.take(7).unwrap();
    assert!(instance.capture_search);
    instance.begin(false, Some(&wide("*.png")), true).unwrap();
    sessions.put_back(7, instance);
    sessions.start(8);
    assert_eq!(sessions.take(7).unwrap().search, "*.png");
    sessions.end(8);
    assert!(sessions.take(8).is_none());
    sessions.end(8);
}

#[test]
fn identifiers_read_a_guid_as_one_number() {
    assert_eq!(
        context_from_guid(0x04030201, 0x0605, 0x0807, 0x100f0e0d0c0b0a09),
        0x100f0e0d0c0b0a090807060504030201
    );
    assert_ne!(context_from_guid(1, 0, 0, 0), context_from_guid(0, 1, 0, 0));
}

#[test]
fn file_times_count_from_1601() {
    assert_eq!(ms_filetime(0), 116444736000000000);
    assert_eq!(ms_filetime(1), 116444736000010000);
    let info = basic_info(EntryKind::Directory, 77, 1);
    assert!(info.is_directory);
    assert_eq!(info.file_size, 0);
    assert_eq!(info.file_attributes, 0x10);
    assert_eq!(info.creation_time, 116444736000010000);
    let info = basic_info(EntryKind::File, u64::MAX, 0);
    assert_eq!(info.file_size, -1);
    assert_eq!(info.file_attributes, 0x80);
}

#[test]
fn system_errors_are_described_with_their_code() {
    let error = Win32Error::from(-2147024894);
    assert_eq!(error, Win32Error(0x80070002));
    assert_eq!(error.describe(None), "0x80070002");
    assert_eq!(error.describe(Some("not found")), "not found (0x80070002)");
    assert_eq!(Win32Error::from(5).describe(None), "0x000005");
}

/// Hand over a window of a file, and collect what is written.
fn transfer(content: &[u8], offset: u64, length: u64, capacity: u64) -> (Vec<u8>, i32) {
    let mut written = vec![0u8; length as usize];
    let mut total = 0;
    let mut transfer = begin_transfer(true, true, offset, length).unwrap();
    transfer.capacity = transfer.capacity.min(capacity);
    if let TransferStep::Read { offset, length } = transfer.step {
        transfer.step = TransferStep::Read {
            offset,
            length: length.min(transfer.capacity),
        };
    }
    let mut piece = Vec::new();
    loop {
        match transfer.step {
            TransferStep::Read { offset, length } => {
                let plan = read_range(content.len() as u64, offset, length as usize);
                piece = finish_read(plan, fetch(content, plan));
                transfer = transfer.read(Some(piece.len() as u64));
            }
            TransferStep::Write {
                write_offset,
                length,
            } => {
                assert_eq!(write_offset as usize, total);
                written[total..total + length as usize].copy_from_slice(&piece);
                total += length as usize;
                transfer = transfer.written(true);
            }
            TransferStep::Finished { code } => {
                written.truncate(total);
                return (written, code);
            }
        }
    }
}

fn fetch(content: &[u8], plan: lore_core::vfs::content::ReadPlan) -> Vec<u8> {
    match plan {
        lore_core::vfs::content::ReadPlan::Nothing => Vec::new(),
        lore_core::vfs::content::ReadPlan::Range { start, end } => {
            content[start as usize..end as usize].to_vec()
        }
        _ => content.to_vec(),
    }
}

#[test]
fn transfer_hands_over_the_window() {
    assert_eq!(transfer(b"hello world", 6, 5, 2), (b"world".to_vec(), 0));
    assert_eq!(transfer(b"hello world", 0, 11, 100), (b"hello world".to_vec(), 0));
    assert_eq!(transfer(b"hello", 2, 0, 100), (Vec::new(), 0));
}

#[test]
fn transfer_past_the_end_is_a_read_fault() {
    assert_eq!(transfer(b"hello", 3, 5, 2), (b"lo".to_vec(), ERROR_READ_FAULT));
    assert_eq!(transfer(b"hello", 5, 1, 2), (Vec::new(), ERROR_READ_FAULT));
}

#[test]
fn transfer_stops_at_the_first_failure() {
    let begun = begin_transfer(true, true, 0, 4).unwrap();
    assert_eq!(
        begun.read(None).step,
        TransferStep::Finished {
            code: ERROR_READ_FAULT
        }
    );
    assert_eq!(
        begun.read(Some(4)).written(false).step,
        TransferStep::Finished {
            code: ERROR_READ_FAULT
        }
    );
    assert_eq!(begin_transfer(false, true, 0, 4), Err(ERROR_FILE_NOT_FOUND));
    assert_eq!(begin_transfer(true, false, 0, 4), Err(ERROR_OUTOFMEMORY));
    assert_eq!(ERROR_OUTOFMEMORY, 0x8007000eu32 as i32);
    assert_eq!(ERROR_READ_FAULT, 0x8007001eu32 as i32);
    assert_eq!(transfer_capacity(5), 5);
    assert_eq!(transfer_capacity(1 << 40), 128 * 1024 * 1024);
}

#[test]
fn file_log_has_to_be_asked_for() {
    assert!(file_log_enabled(Some("1"), false));
    assert!(!file_log_enabled(Some("1"), true));
    assert!(!file_log_enabled(Some("true"), false));
    assert!(!file_log_enabled(None, false));
}

#[test]
fn pool_is_bounded() {
    assert_eq!(pool_threads(None), 8);
    assert_eq!(pool_threads(Some(2)), 8);
    assert_eq!(pool_threads(Some(20)), 20);
    assert_eq!(pool_threads(Some(64)), 32);
}

#[test]
fn stored_identifier_is_reused() {
    let stored = [3u8; 16];
    let id = instance_id(Some(&stored));
    assert!(!id.fresh);
    assert_eq!(id.bytes, stored);
}

#[test]
fn unusable_identifier_is_replaced() {
    let zero = [0u8; 16];
    let cases: [Option<&[u8]>; 4] = [None, Some(&[1, 2, 3]), Some(&[7; 17]), Some(&zero)];
    for stored in cases {
        let id = instance_id(stored);
        assert!(id.fresh);
        assert_ne!(id.bytes, [0; 16]);
        assert_eq!(id.bytes[6] >> 4, 7);
        assert_eq!(id.bytes[8] >> 6, 2);
        let given = instance_id_or(stored, [9; 16]);
        assert!(given.fresh);
        assert_eq!(given.bytes, [9; 16]);
    }
    assert_ne!(instance_id(None).bytes, instance_id(None).bytes);
}

fn run(answers: &[StartupAnswer]) -> StartupStep {
    let mut step = serve();
    for answer in answers {
        step = step.answer(*answer);
    }
    step
}

#[test]
fn startup_serves_when_every_step_succeeds() {
    let ok = StartupAnswer::Done { ok: true };
    let zero = StartupAnswer::Code { code: 0 };
    let known = InstanceId {
        bytes: [1; 16],
        fresh: false,
    };
    let step = run(&[ok, ok, ok, StartupAnswer::Id { id: known }, zero]);
    assert!(matches!(step, StartupStep::Serving { id } if id.bytes == [1; 16]));

    let fresh = InstanceId {
        bytes: [2; 16],
        fresh: true,
    };
    let step = run(&[ok, ok, ok, StartupAnswer::Id { id: fresh }]);
    assert!(matches!(step, StartupStep::MarkDirectory { .. }));
    let step = run(&[ok, ok, ok, StartupAnswer::Id { id: fresh }, zero, ok, zero]);
    assert!(matches!(step, StartupStep::Serving { id } if id.bytes == [2; 16]));
}

#[test]
fn startup_stops_at_the_first_failure() {
    let ok = StartupAnswer::Done { ok: true };
    let failed = StartupAnswer::Done { ok: false };
    let zero = StartupAnswer::Code { code: 0 };
    let code = StartupAnswer::Code { code: 5 };
    let id = StartupAnswer::Id {
        id: InstanceId {
            bytes: [2; 16],
            fresh: true,
        },
    };
    let known = StartupAnswer::Id {
        id: InstanceId {
            bytes: [2; 16],
            fresh: false,
        },
    };
    let cases: [(&[StartupAnswer], StartupFailure); 6] = [
        (&[failed], StartupFailure::Unsupported),
        (&[ok, failed], StartupFailure::NoRepositoryPath),
        (&[ok, ok, failed], StartupFailure::CannotEnterRepository),
        (&[ok, ok, ok, id, code], StartupFailure::CannotMark { code: 5 }),
        (&[ok, ok, ok, id, zero, failed], StartupFailure::CannotStoreId),
        (&[ok, ok, ok, known, code], StartupFailure::CannotStart { code: 5 }),
    ];
    for (answers, expected) in cases {
        match run(answers) {
            StartupStep::Stopped { failure } => assert_eq!(failure, expected),
            step => panic!("expected {expected:?}, got {step:?}"),
        }
    }
}

fn resolved(directory: bool, size: u64) -> ResolvedNode {
    ResolvedNode {
        source: Source {
            repository: 1,
            state: 2,
        },
        node: Node {
            directory,
            size,
            staged_delete: false,
            dirty_delete: false,
            hash: ContentHash { data: [4; 32] },
        },
        node_id: 3,
    }
}

#[test]
fn placeholders_name_repository_and_content() {
    let info = get_placeholder_info(true, Some(resolved(false, 5)), 1, &[8; 16]).unwrap();
    assert_eq!(info.basic, basic_info(EntryKind::File, 5, 1));
    assert_eq!(info.provider_id.len(), 128);
    assert_eq!(info.provider_id[..16], [8; 16]);
    assert_eq!(info.provider_id[16..], [0; 112]);
    assert_eq!(info.content_id[..32], [4; 32]);
    assert_eq!(info.content_id[32..], [0; 96]);
    let info = get_placeholder_info(true, Some(resolved(true, 5)), 1, &[8; 16]).unwrap();
    assert!(info.basic.is_directory);
    assert!(matches!(
        get_placeholder_info(true, None, 1, &[]),
        Err(code) if code == ERROR_FILE_NOT_FOUND
    ));
    assert!(matches!(
        get_placeholder_info(false, Some(resolved(false, 5)), 1, &[]),
        Err(code) if code == ERROR_FILE_NOT_FOUND
    ));
    assert_eq!(query_file_name(true, true), 0);
    assert_eq!(query_file_name(true, false), ERROR_FILE_NOT_FOUND);
    assert_eq!(query_file_name(false, true), ERROR_FILE_NOT_FOUND);
}

#[test]
fn byte_counts_are_scaled() {
    let scaled = |bytes| {
        let ScaledBytes { amount, unit } = scale_bytes(bytes);
        (amount, unit)
    };
    assert_eq!(scaled(1024), (1024, ByteUnit::Bytes));
    assert_eq!(scaled(1025), (1025, ByteUnit::KiB));
    assert_eq!(scaled(1048576), (1048576, ByteUnit::KiB));
    assert_eq!(scaled(1048577), (1024, ByteUnit::MiB));
    assert_eq!(scaled(1073741825), (1024, ByteUnit::GiB));
}

#[test]
fn progress_is_reported_when_it_moved() {
    let mut progress = PrefetchProgress::new();
    assert!(!progress.report(true));
    progress.cached(10);
    progress.hydrated();
    assert!(!progress.report(false));
    assert!(progress.report(true));
    assert!(!progress.report(true));
    progress.cached(usize::MAX);
    assert_eq!((progress.files, progress.bytes), (1, 9));
    assert_eq!(
        progress_message(false, 12, "3.00 KiB"),
        "Prefetched 12 files, 3.00 KiB"
    );
    assert_eq!(
        progress_message(true, 0, "0.00 bytes"),
        "Prefetched done: 0 files, 0.00 bytes"
    );
}

fn told(
    kind: Notification,
    is_directory: bool,
    projected: bool,
    relative: &str,
    destination: &str,
) -> Vec<(String, ExplicitDirty)> {
    notified(kind, is_directory, projected, relative, destination)
        .into_iter()
        .map(|report| (report.relative, report.action))
        .collect()
}

#[test]
fn changes_on_disk_are_tracked() {
    let edited = told(Notification::Modified, false, true, "readme.md", "");
    assert_eq!(edited, [("readme.md".to_string(), ExplicitDirty::Modify)]);
    let made = told(Notification::Created, false, false, "notes.txt", "");
    assert_eq!(made, [("notes.txt".to_string(), ExplicitDirty::Add)]);
    // A new file stays an add when it is written to.
    let written = told(Notification::Modified, false, false, "notes.txt", "");
    assert_eq!(written, made);
    let deleted = told(Notification::Deleted, false, true, "src/test.txt", "");
    assert_eq!(deleted, [("src/test.txt".to_string(), ExplicitDirty::Delete)]);
}

#[test]
fn directories_are_not_themselves_added() {
    assert!(told(Notification::Created, true, false, "src", "").is_empty());
    assert!(told(Notification::Modified, true, true, "src", "").is_empty());
    let deleted = told(Notification::Deleted, true, true, "src", "");
    assert_eq!(deleted, [("src".to_string(), ExplicitDirty::Delete)]);
}

#[test]
fn renames_on_disk_are_a_delete_and_an_add() {
    let delete = ("a".to_string(), ExplicitDirty::Delete);
    let add = ("b".to_string(), ExplicitDirty::Add);
    let moved = told(Notification::Renamed, false, true, "a", "b");
    assert_eq!(moved, [delete.clone(), add.clone()]);
    // One end may lie outside the directory.
    assert_eq!(told(Notification::Renamed, false, true, "a", ""), [delete]);
    assert_eq!(told(Notification::Renamed, false, false, "", "b"), [add]);
}

#[test]
fn enumeration_continued_to_its_end_hands_out_every_match_once() {
    let files = ["d.txt", "b.txt", "c.png", "a.txt"];
    for room in 1..4 {
        for (expression, expected) in [
            (None, vec!["a.txt", "b.txt", "c.png", "d.txt"]),
            (Some("*"), vec!["a.txt", "b.txt", "c.png", "d.txt"]),
            (Some("*.txt"), vec!["a.txt", "b.txt", "d.txt"]),
            (Some("*.gif"), vec![]),
        ] {
            let units = expression.map(|text| text.encode_utf16().collect::<Vec<u16>>());
            let mut instance = EnumerationInstance::new();
            instance.begin(true, units.as_deref(), true).unwrap();
            let listed = files.map(|name| entry(name, EntryKind::File, 1)).to_vec();
            instance.load(listed, compare);
            let suffix = expression.unwrap_or("").trim_start_matches('*').to_string();
            let mut handed = Vec::new();
            loop {
                let (given, code) =
                    callback(&mut instance, room, &|name: &str| name.ends_with(&suffix));
                assert_eq!(code, 0);
                if given.is_empty() {
                    break;
                }
                handed.extend(given);
            }
            assert_eq!(handed, expected);
        }
    }
}
