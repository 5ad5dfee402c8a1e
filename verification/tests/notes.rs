use std::path::PathBuf;

use sn::notes::{left_panel_width, note_files, note_from_file, DirEntryInfo};

fn entry(name: &str, is_file: bool) -> DirEntryInfo {
    DirEntryInfo {
        path: PathBuf::from(format!("/d/{name}")),
        name_bytes: name.as_bytes().to_vec(),
        file_name: name.to_string(),
        name_is_utf8: true,
        is_file,
    }
}

#[test]
fn only_md_and_txt_files_are_notes_in_name_order() {
    let entries = vec![
        entry("zeta.md", true),
        entry("alpha.txt", true),
        entry("image.png", true),
        entry("folder.md", false),
        entry(".md", true),
        entry("Beta.md", true),
        entry("noext", true),
        entry("a.b.md", true),
        entry("upper.MD", true),
    ];
    let files = note_files(entries);
    let names: Vec<&str> = files.iter().map(|f| f.file_name.as_str()).collect();
    assert_eq!(names, vec!["Beta.md", "a.b.md", "alpha.txt", "zeta.md"]);
}

#[test]
fn note_names_are_file_stems() {
    let n = note_from_file(entry("a.b.md", true), "text".to_string());
    assert_eq!(n.name, "a.b");
    assert_eq!(n.content, "text");
    assert_eq!(n.path, PathBuf::from("/d/a.b.md"));
    let n = note_from_file(entry("plain.txt", true), String::new());
    assert_eq!(n.name, "plain");
    let mut bad = entry("\u{fffd}.md", true);
    bad.name_bytes = vec![0xc3, b'.', b'm', b'd'];
    bad.name_is_utf8 = false;
    assert_eq!(note_from_file(bad, String::new()).name, "untitled");
}

#[test]
fn left_panel_width_reads_a_u16() {
    assert_eq!(left_panel_width(None), 32);
    assert_eq!(left_panel_width(Some("40".to_string())), 40);
    assert_eq!(left_panel_width(Some("65535".to_string())), 65535);
    assert_eq!(left_panel_width(Some("65536".to_string())), 32);
    assert_eq!(left_panel_width(Some("-1".to_string())), 32);
    assert_eq!(left_panel_width(Some(" 40".to_string())), 32);
    assert_eq!(left_panel_width(Some("".to_string())), 32);
    assert_eq!(left_panel_width(Some("+7".to_string())), 7);
}

#[test]
fn invalid_utf8_names_sort_by_their_bytes() {
    let mut bad = entry("\u{fffd}.md", true);
    bad.name_bytes = vec![0xc3, b'.', b'm', b'd'];
    bad.name_is_utf8 = false;
    let good = entry("\u{e9}.md", true);
    let files = note_files(vec![good, bad]);
    assert_eq!(files[0].name_bytes, vec![0xc3, b'.', b'm', b'd']);
    assert_eq!(files[1].name_bytes, "\u{e9}.md".as_bytes().to_vec());
    let mut odd = entry("x.m\u{fffd}", true);
    odd.name_bytes = vec![b'x', b'.', b'm', 0xff];
    odd.name_is_utf8 = false;
    assert!(note_files(vec![odd]).is_empty());
}
