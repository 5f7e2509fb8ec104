use onboard::extraction::{
    collect_entries, open_archive, plan_actions, summarize_outcomes, ArchiveEntry, EntryOutcome,
    FsAction,
};
use std::io::Write;

fn sample_zip() -> Vec<u8> {
    let options = zip::write::SimpleFileOptions::default()
        .compression_method(zip::CompressionMethod::Stored);
    let mut writer = zip::ZipWriter::new(std::io::Cursor::new(Vec::new()));
    writer.add_directory("publish/", options).unwrap();
    writer.start_file("publish/a.txt", options).unwrap();
    writer.write_all(b"alpha").unwrap();
    writer.start_file("publish/b.bin", options).unwrap();
    writer.write_all(&[1u8, 2, 3]).unwrap();
    writer.finish().unwrap().into_inner()
}

#[test]
fn archive_round_trip() {
    let mut archive = open_archive(sample_zip()).unwrap();
    let entries = collect_entries(&mut archive);
    assert_eq!(entries.len(), 3);
    assert_eq!(entries[0].name, "publish/");
    assert!(entries[0].is_dir);
    assert_eq!(entries[1].name, "publish/a.txt");
    assert!(!entries[1].is_dir);
    assert_eq!(entries[1].data, b"alpha");
    assert_eq!(entries[2].name, "publish/b.bin");
    assert_eq!(entries[2].data, vec![1u8, 2, 3]);
}

#[test]
fn malformed_archive_is_rejected() {
    assert!(open_archive(vec![0u8, 1, 2, 3]).is_none());
}

#[test]
fn plan_maps_entries_to_actions() {
    let entries = vec![
        ArchiveEntry { name: "publish/".to_string(), is_dir: true, data: Vec::new() },
        ArchiveEntry { name: "publish/a.txt".to_string(), is_dir: false, data: b"alpha".to_vec() },
    ];
    let actions = plan_actions(entries, "/root", "g1");
    assert_eq!(actions.len(), 2);
    match &actions[0] {
        FsAction::MakeDir { path } => assert_eq!(path, "/root/g1/publish/"),
        FsAction::WriteFile { .. } => panic!("directory entry must become a directory"),
    }
    match &actions[1] {
        FsAction::WriteFile { path, data } => {
            assert_eq!(path, "/root/g1/publish/a.txt");
            assert_eq!(data, b"alpha");
        }
        FsAction::MakeDir { .. } => panic!("file entry must become a write"),
    }
}

#[test]
fn one_unwritable_entry_does_not_abort_the_rest() {
    let outcomes = vec![
        EntryOutcome { name: "a".to_string(), ok: true, error: String::new() },
        EntryOutcome { name: "b".to_string(), ok: false, error: "permission denied".to_string() },
        EntryOutcome { name: "c".to_string(), ok: true, error: String::new() },
    ];
    let report = summarize_outcomes(&outcomes);
    assert_eq!(report.attempted, 3);
    assert_eq!(report.succeeded, 2);
    assert_eq!(report.failures, vec!["b".to_string()]);
}

#[test]
fn clean_extraction_reports_no_failures() {
    let outcomes = vec![
        EntryOutcome { name: "a".to_string(), ok: true, error: String::new() },
        EntryOutcome { name: "b".to_string(), ok: true, error: String::new() },
    ];
    let report = summarize_outcomes(&outcomes);
    assert_eq!(report.attempted, 2);
    assert_eq!(report.succeeded, 2);
    assert!(report.failures.is_empty());
}
