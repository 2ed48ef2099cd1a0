use flashkraft::tui::UsbEntry;
use flashkraft::usb_contents::{classify_ext, file_icon, file_type_counts, fmt_size};

fn file(name: &str) -> UsbEntry {
    UsbEntry { name: name.into(), size_bytes: 1, is_dir: false, depth: 0 }
}

#[test]
fn classify_by_last_dot_segment() {
    assert_eq!(classify_ext("ubuntu.ISO"), "Disk Images");
    assert_eq!(classify_ext("setup.AppImage"), "Executables");
    assert_eq!(classify_ext("archive.tar.gz"), "Archives");
    assert_eq!(classify_ext("README"), "Other");
    assert_eq!(classify_ext("grub.cfg"), "Text / Config");
    assert_eq!(classify_ext("photo.jpeg"), "Images");
    assert_eq!(classify_ext("clip.webm"), "Video");
    assert_eq!(classify_ext("song.m4a"), "Audio");
    assert_eq!(classify_ext("bootx64.efi"), "System / Libs");
    assert_eq!(classify_ext("run.ps1"), "Scripts");
    // A name that is only an extension word still classifies.
    assert_eq!(classify_ext("iso"), "Disk Images");
    assert_eq!(classify_ext("trailing."), "Other");
}

#[test]
fn icons_follow_categories() {
    assert_eq!(file_icon("a.iso"), "💿");
    assert_eq!(file_icon("a.exe"), "⚙");
    assert_eq!(file_icon("a.sh"), "📜");
    assert_eq!(file_icon("a.txt"), "📄");
    assert_eq!(file_icon("a.png"), "🖼");
    assert_eq!(file_icon("a.mkv"), "🎬");
    assert_eq!(file_icon("a.flac"), "🎵");
    assert_eq!(file_icon("a.zip"), "📦");
    assert_eq!(file_icon("a.ko"), "🔧");
    assert_eq!(file_icon("a.unknown"), "📄");
}

#[test]
fn counts_are_in_label_order_without_empty_categories() {
    let mut entries = vec![
        file("boot.iso"),
        file("a.txt"),
        file("b.md"),
        file("c.zip"),
        file("mystery"),
    ];
    entries.push(UsbEntry { name: "dir.iso".into(), size_bytes: 0, is_dir: true, depth: 0 });
    let counts = file_type_counts(&entries);
    assert_eq!(
        counts,
        vec![("Archives", 1), ("Disk Images", 1), ("Other", 1), ("Text / Config", 2)]
    );
    assert!(file_type_counts(&Vec::new()).is_empty());
}

#[test]
fn compact_sizes_match_float_formatting() {
    assert_eq!(fmt_size(512), "512B");
    assert_eq!(fmt_size(1_536), "1.5K");
    assert_eq!(fmt_size(2_097_152), "2.0M");
    assert_eq!(fmt_size(1_073_741_824), "1.0G");
    for b in [1024u64, 1075, 1126, 999_999, 5_000_000_000, u64::MAX] {
        let expected = if b >= 1_073_741_824 {
            format!("{:.1}G", b as f64 / 1_073_741_824.0)
        } else if b >= 1_048_576 {
            format!("{:.1}M", b as f64 / 1_048_576.0)
        } else {
            format!("{:.1}K", b as f64 / 1_024.0)
        };
        assert_eq!(fmt_size(b), expected, "bytes = {b}");
    }
}

