use flashkraft::file_explorer::{
    entry_icon, fmt_size, AfterLoad, DirItem, ExplorerOutcome, FileExplorer, FsEntry,
};
use flashkraft::keys::{Key, KeyPress};

const ROOT: &str = "/tmp/fk_explorer";

fn item(name: &str, is_dir: bool, size: Option<u64>) -> DirItem {
    DirItem {
        name: name.to_string(),
        path: format!("{ROOT}/{name}"),
        is_dir,
        size,
    }
}

/// A directory with two images, a text file and a
/// sub-directory, listed in the order a file system might give them.
fn listing_with_files() -> Vec<DirItem> {
    vec![
        item("ubuntu.iso", false, Some(16)),
        item("subdir", true, Some(4096)),
        item("readme.txt", false, Some(9)),
        item("debian.img", false, Some(16)),
    ]
}

fn exts(list: &[&str]) -> Vec<String> {
    list.iter().map(|s| s.to_string()).collect()
}

fn key(k: Key) -> KeyPress {
    KeyPress::plain(k)
}

#[test]
fn new_loads_entries() {
    let explorer = FileExplorer::new(ROOT.to_string(), exts(&["iso", "img"]), listing_with_files());
    assert!(explorer.entries.iter().any(|e| e.name == "subdir" && e.is_dir));
    assert!(explorer.entries.iter().any(|e| e.name == "ubuntu.iso"));
    assert!(explorer.entries.iter().any(|e| e.name == "debian.img"));
    assert!(!explorer.entries.iter().any(|e| e.name == "readme.txt"));
}

#[test]
fn no_filter_shows_all_files() {
    let explorer = FileExplorer::new(ROOT.to_string(), vec![], listing_with_files());
    assert!(explorer.entries.iter().any(|e| e.name == "readme.txt"));
}

#[test]
fn dirs_listed_before_files() {
    let explorer = FileExplorer::new(ROOT.to_string(), vec![], listing_with_files());
    let first_file_idx = explorer.entries.iter().position(|e| !e.is_dir).unwrap_or(usize::MAX);
    let last_dir_idx = explorer.entries.iter().rposition(|e| e.is_dir).unwrap_or(0);
    assert!(last_dir_idx < first_file_idx, "dirs should appear before files");
}

#[test]
fn entries_sorted_case_insensitively_within_groups() {
    let listing = vec![
        item("b.iso", false, Some(1)),
        item("Zeta", true, None),
        item("A.img", false, Some(2)),
        item("alpha", true, None),
        item("c.ISO", false, Some(3)),
    ];
    let explorer = FileExplorer::new(ROOT.to_string(), vec![], listing);
    let names: Vec<&str> = explorer.entries.iter().map(|e| e.name.as_str()).collect();
    assert_eq!(names, vec!["alpha", "Zeta", "A.img", "b.iso", "c.ISO"]);
    // Extensions are recorded in lower case; directories have none.
    assert_eq!(explorer.entries[4].extension, "iso");
    assert_eq!(explorer.entries[0].extension, "");
    assert_eq!(explorer.entries[0].size, None);
}

#[test]
fn extension_rules_follow_path_extension() {
    let listing = vec![
        item(".bashrc", false, Some(1)),
        item("archive.tar.GZ", false, Some(1)),
        item("noext", false, Some(1)),
        item("trailing.", false, Some(1)),
    ];
    let mut explorer = FileExplorer::new(ROOT.to_string(), vec![], listing);
    // Dot-files are hidden by default.
    assert!(!explorer.entries.iter().any(|e| e.name == ".bashrc"));
    explorer.show_hidden = true;
    explorer.reload(vec![
        item(".bashrc", false, Some(1)),
        item("archive.tar.GZ", false, Some(1)),
        item("noext", false, Some(1)),
        item("trailing.", false, Some(1)),
    ]);
    let ext = |n: &str| {
        explorer
            .entries
            .iter()
            .find(|e| e.name == n)
            .map(|e| e.extension.clone())
            .unwrap()
    };
    assert_eq!(ext(".bashrc"), "");
    assert_eq!(ext("archive.tar.GZ"), "gz");
    assert_eq!(ext("noext"), "");
    assert_eq!(ext("trailing."), "");
}

#[test]
fn move_down_increments_cursor() {
    let mut explorer = FileExplorer::new(ROOT.to_string(), vec![], listing_with_files());
    assert_eq!(explorer.cursor, 0);
    explorer.move_down();
    assert_eq!(explorer.cursor, 1);
}

#[test]
fn move_up_clamps_at_zero() {
    let mut explorer = FileExplorer::new(ROOT.to_string(), vec![], listing_with_files());
    explorer.move_up();
    assert_eq!(explorer.cursor, 0);
}

#[test]
fn move_down_clamps_at_last() {
    let mut explorer = FileExplorer::new(ROOT.to_string(), vec![], listing_with_files());
    let last = explorer.entries.len() - 1;
    explorer.cursor = last;
    explorer.move_down();
    assert_eq!(explorer.cursor, last);
}

#[test]
fn handle_key_down_moves_cursor() {
    let mut explorer = FileExplorer::new(ROOT.to_string(), vec![], listing_with_files());
    let outcome = explorer.handle_key(key(Key::Down));
    assert_eq!(outcome, ExplorerOutcome::Pending);
    assert_eq!(explorer.cursor, 1);
}

#[test]
fn handle_key_esc_dismisses() {
    let mut explorer = FileExplorer::new(ROOT.to_string(), vec![], listing_with_files());
    assert_eq!(explorer.handle_key(key(Key::Esc)), ExplorerOutcome::Dismissed);
}

#[test]
fn q_dismisses_only_without_modifiers() {
    let mut explorer = FileExplorer::new(ROOT.to_string(), vec![], listing_with_files());
    assert_eq!(explorer.handle_key(key(Key::Char('q'))), ExplorerOutcome::Dismissed);
    assert_eq!(
        explorer.handle_key(KeyPress::ctrl(Key::Char('q'))),
        ExplorerOutcome::Unhandled
    );
}

#[test]
fn handle_key_enter_on_dir_descends() {
    let mut explorer = FileExplorer::new(ROOT.to_string(), vec![], listing_with_files());
    let subdir_idx = explorer.entries.iter().position(|e| e.is_dir).expect("no dirs");
    explorer.cursor = subdir_idx;
    let outcome = explorer.handle_key(key(Key::Enter));
    assert_eq!(outcome, ExplorerOutcome::Pending);
    assert!(explorer.current_dir.ends_with("subdir"));
    // The new directory's listing is awaited, then shown with the cursor on top.
    assert_eq!(explorer.awaiting, Some(AfterLoad::Keep));
    explorer.reload(vec![item("inner.iso", false, Some(5))]);
    assert_eq!(explorer.awaiting, None);
    assert_eq!(explorer.cursor, 0);
    assert_eq!(explorer.entries.len(), 1);
}

#[test]
fn handle_key_enter_on_valid_file_selects() {
    let mut explorer =
        FileExplorer::new(ROOT.to_string(), exts(&["iso", "img"]), listing_with_files());
    let iso_idx = explorer
        .entries
        .iter()
        .position(|e| e.name == "ubuntu.iso")
        .expect("ubuntu.iso not found");
    explorer.cursor = iso_idx;
    let outcome = explorer.handle_key(key(Key::Enter));
    assert!(matches!(outcome, ExplorerOutcome::Selected(_)));
    if let ExplorerOutcome::Selected(p) = outcome {
        assert!(p.ends_with("ubuntu.iso"));
    }
}

#[test]
fn enter_on_unsupported_file_sets_status() {
    let mut explorer = FileExplorer::new(ROOT.to_string(), exts(&["iso"]), vec![]);
    explorer.entries = vec![FsEntry {
        name: "readme.txt".into(),
        path: format!("{ROOT}/readme.txt"),
        is_dir: false,
        size: Some(9),
        extension: "txt".into(),
    }];
    let outcome = explorer.handle_key(key(Key::Enter));
    assert_eq!(outcome, ExplorerOutcome::Pending);
    assert_eq!(explorer.status, "Not a supported file type. Allowed: .iso");
}

#[test]
fn handle_key_backspace_ascends() {
    let subdir = format!("{ROOT}/subdir");
    let mut explorer = FileExplorer::new(subdir.clone(), vec![], vec![]);
    explorer.handle_key(key(Key::Backspace));
    assert_eq!(explorer.current_dir, ROOT);
    // Once the parent's listing arrives, the cursor lands on the directory left.
    explorer.reload(listing_with_files());
    assert_eq!(explorer.entries[explorer.cursor].path, subdir);
}

#[test]
fn ascend_at_root_reports_status() {
    let mut explorer = FileExplorer::new("/".to_string(), vec![], vec![]);
    explorer.handle_key(key(Key::Left));
    assert_eq!(explorer.current_dir, "/");
    assert_eq!(explorer.status, "Already at the filesystem root.");
    assert_eq!(explorer.awaiting, None);
}

#[test]
fn toggle_hidden_changes_visibility() {
    let listing = || {
        vec![
            item(".hidden", false, Some(1)),
            item("visible.txt", false, Some(1)),
        ]
    };
    let mut explorer = FileExplorer::new(ROOT.to_string(), vec![], listing());
    assert!(!explorer.entries.iter().any(|e| e.name == ".hidden"));
    explorer.handle_key(key(Key::Char('.')));
    assert!(explorer.show_hidden);
    explorer.reload(listing());
    assert!(explorer.entries.iter().any(|e| e.name == ".hidden"));
}

#[test]
fn page_keys_move_by_ten_and_clamp() {
    let listing: Vec<DirItem> = (0..25).map(|i| item(&format!("f{i:02}.iso"), false, Some(1))).collect();
    let mut explorer = FileExplorer::new(ROOT.to_string(), vec![], listing);
    explorer.handle_key(key(Key::PageDown));
    assert_eq!(explorer.cursor, 10);
    explorer.handle_key(key(Key::PageDown));
    explorer.handle_key(key(Key::PageDown));
    assert_eq!(explorer.cursor, 24);
    explorer.handle_key(key(Key::PageUp));
    assert_eq!(explorer.cursor, 14);
    explorer.handle_key(key(Key::Home));
    assert_eq!(explorer.cursor, 0);
    explorer.handle_key(key(Key::Char('G')));
    assert_eq!(explorer.cursor, 24);
}

#[test]
fn fmt_size_formats_bytes() {
    assert_eq!(fmt_size(512), "512 B");
    assert_eq!(fmt_size(1_536), "1.5 KB");
    assert_eq!(fmt_size(2_097_152), "2.0 MB");
    assert_eq!(fmt_size(1_073_741_824), "1.0 GB");
}

#[test]
fn fmt_size_matches_float_formatting() {
    // Values around rounding ties and beyond the exact range of a double.
    let samples: Vec<u64> = vec![
        0,
        1023,
        1024,
        1075,
        1126,
        1177,
        1331,
        5_000_000,
        1_048_575,
        1_048_576 + 52_428,
        10_000_000_000,
        (1 << 53) + 1,
        u64::MAX,
    ];
    for b in samples {
        let expected = if b >= 1 << 30 {
            format!("{:.1} GB", b as f64 / (1u64 << 30) as f64)
        } else if b >= 1 << 20 {
            format!("{:.1} MB", b as f64 / (1u64 << 20) as f64)
        } else if b >= 1 << 10 {
            format!("{:.1} KB", b as f64 / (1u64 << 10) as f64)
        } else {
            format!("{b} B")
        };
        assert_eq!(fmt_size(b), expected, "bytes = {b}");
    }
}

#[test]
fn is_selectable_respects_filter() {
    let explorer = FileExplorer::new(ROOT.to_string(), exts(&["iso"]), listing_with_files());
    let iso_entry = FsEntry {
        name: "ubuntu.iso".into(),
        path: format!("{ROOT}/ubuntu.iso"),
        is_dir: false,
        size: Some(16),
        extension: "iso".into(),
    };
    let img_entry = FsEntry {
        name: "debian.img".into(),
        path: format!("{ROOT}/debian.img"),
        is_dir: false,
        size: Some(16),
        extension: "img".into(),
    };
    let dir_entry = FsEntry {
        name: "subdir".into(),
        path: format!("{ROOT}/subdir"),
        is_dir: true,
        size: None,
        extension: String::new(),
    };
    assert!(explorer.is_selectable(&iso_entry), "iso should be selectable");
    assert!(!explorer.is_selectable(&img_entry), "img should not be selectable with iso-only filter");
    assert!(!explorer.is_selectable(&dir_entry), "dirs are never selectable");
}

#[test]
fn filter_hint_lists_extensions() {
    let explorer = FileExplorer::new(ROOT.to_string(), exts(&["iso", "img"]), vec![]);
    assert_eq!(explorer.filter_hint(), ".iso, .img");
    let all = FileExplorer::new(ROOT.to_string(), vec![], vec![]);
    assert_eq!(all.filter_hint(), "*");
}

#[test]
fn navigate_to_resets_cursor_and_scroll() {
    let mut explorer = FileExplorer::new(ROOT.to_string(), vec![], listing_with_files());
    explorer.cursor = 2;
    explorer.scroll_offset = 1;
    explorer.navigate_to(ROOT.to_string(), listing_with_files());
    assert_eq!(explorer.cursor, 0);
    assert_eq!(explorer.scroll_offset, 0);
}

#[test]
fn current_entry_returns_highlighted() {
    let mut explorer = FileExplorer::new(ROOT.to_string(), vec![], listing_with_files());
    explorer.cursor = 0;
    let entry = explorer.current_entry().expect("should have entry");
    assert_eq!(entry, explorer.entries.first().unwrap());
}

#[test]
fn unrecognised_key_returns_unhandled() {
    let mut explorer = FileExplorer::new(ROOT.to_string(), vec![], listing_with_files());
    assert_eq!(explorer.handle_key(key(Key::F(5))), ExplorerOutcome::Unhandled);
}

#[test]
fn icons_by_extension() {
    let e = |ext: &str, is_dir: bool| FsEntry {
        name: "x".into(),
        path: "x".into(),
        is_dir,
        size: None,
        extension: ext.into(),
    };
    assert_eq!(entry_icon(&e("", true)), "📁");
    assert_eq!(entry_icon(&e("iso", false)), "💿");
    assert_eq!(entry_icon(&e("img", false)), "🖼 ");
    assert_eq!(entry_icon(&e("xz", false)), "📦");
    assert_eq!(entry_icon(&e("fish", false)), "📜");
    assert_eq!(entry_icon(&e("json", false)), "⚙ ");
    assert_eq!(entry_icon(&e("md", false)), "📄");
    assert_eq!(entry_icon(&e("bin", false)), "📄");
}

#[test]
fn scroll_follows_cursor_down_and_up() {
    let listing: Vec<DirItem> = (0..10).map(|i| item(&format!("f{i}.iso"), false, Some(1))).collect();
    let mut explorer = FileExplorer::new(ROOT.to_string(), vec![], listing);
    explorer.cursor = 7;
    explorer.scroll_into_view(3);
    assert_eq!(explorer.scroll_offset, 5);
    explorer.scroll_into_view(3);
    assert_eq!(explorer.scroll_offset, 5, "a visible cursor leaves the scroll alone");
    explorer.cursor = 2;
    explorer.scroll_into_view(3);
    assert_eq!(explorer.scroll_offset, 2);
}

#[test]
fn position_label_counts_from_one() {
    let mut explorer = FileExplorer::new(ROOT.to_string(), vec![], listing_with_files());
    assert_eq!(explorer.position_label(), "1/4");
    explorer.cursor = 3;
    assert_eq!(explorer.position_label(), "4/4");
    let empty = FileExplorer::new(ROOT.to_string(), vec![], vec![]);
    assert_eq!(empty.position_label(), "empty");
}

#[test]
fn footer_shows_filter_or_status() {
    let mut explorer = FileExplorer::new(ROOT.to_string(), exts(&["iso", "img"]), listing_with_files());
    assert_eq!(explorer.footer_status(), "Filter: .iso, .img");
    explorer.show_hidden = true;
    assert_eq!(explorer.footer_status(), "Filter: .iso, .img [+hidden]");
    explorer.status = "Already at the filesystem root.".to_string();
    assert_eq!(explorer.footer_status(), "Already at the filesystem root.");
    let open = FileExplorer::new(ROOT.to_string(), vec![], vec![]);
    assert_eq!(open.footer_status(), "Filter: all files");
}

#[test]
fn header_cuts_long_directories_from_the_left() {
    let explorer = FileExplorer::new("/home/user/some/long/dir".to_string(), vec![], vec![]);
    assert_eq!(explorer.header_path(14), "…/long/dir");
    assert_eq!(explorer.header_path(40), "/home/user/some/long/dir");
    assert_eq!(explorer.header_path(7), "/home/user/some/long/dir");
    let wide = FileExplorer::new("/médias/clé".to_string(), vec![], vec![]);
    assert_eq!(wide.header_path(12), "…as/clé");
}

#[test]
fn reloading_the_same_listing_twice_changes_nothing() {
    let mut explorer = FileExplorer::new(ROOT.to_string(), exts(&["iso", "img"]), listing_with_files());
    explorer.cursor = 1;
    explorer.reload(listing_with_files());
    let names: Vec<String> = explorer.entries.iter().map(|e| e.name.clone()).collect();
    let cursor = explorer.cursor;
    explorer.reload(listing_with_files());
    let again: Vec<String> = explorer.entries.iter().map(|e| e.name.clone()).collect();
    assert_eq!(names, again);
    assert_eq!(explorer.cursor, cursor);
    assert_eq!(explorer.current_dir, ROOT);
    assert!(!explorer.show_hidden);
}
