use flashkraft::screens::{
    breadcrumbs, centred_area, contents_scroll_info, drive_list_title, drive_ready, drive_status,
    field_display, image_exceeds_drive, log_tail, log_tone, ready_banner, row_marks, status_icon, status_message,
    target_description, Area, DriveStatus, LogTone, StepState,
};
use flashkraft::tui::DriveInfo;

fn drive(is_system: bool, is_read_only: bool) -> DriveInfo {
    DriveInfo {
        name: "SanDisk".into(),
        device_path: "/dev/sdb".into(),
        mount_point: "/media/sandisk".into(),
        size_bytes: 8_000_000_000,
        is_system,
        is_read_only,
        usb_info: None,
    }
}

#[test]
fn field_shows_bar_at_cursor_while_editing() {
    assert_eq!(field_display("abc", 1, true), "a│bc");
    assert_eq!(field_display("abc", 3, true), "abc│");
    assert_eq!(field_display("abc", 0, true), "│abc");
    assert_eq!(field_display("abc", 1, false), "abc");
    assert_eq!(field_display("é/x", 1, true), "é│/x");
}

#[test]
fn drive_status_prefers_system_over_read_only() {
    assert_eq!(drive_status(&drive(true, true)), DriveStatus::System);
    assert_eq!(drive_status(&drive(false, true)), DriveStatus::ReadOnly);
    assert_eq!(drive_status(&drive(false, false)), DriveStatus::Available);
    assert_eq!(status_icon(DriveStatus::System), "🔒");
    assert_eq!(status_icon(DriveStatus::ReadOnly), "🚫");
    assert_eq!(status_icon(DriveStatus::Available), "💾");
    assert_eq!(status_message(DriveStatus::System), "⚠ System drive — cannot flash");
    assert_eq!(status_message(DriveStatus::ReadOnly), "⚠ Read-only — cannot flash");
    assert_eq!(status_message(DriveStatus::Available), "✓ Available for flashing");
}

#[test]
fn drive_list_title_by_state() {
    assert_eq!(drive_list_title(true, 3), " ⟳  Scanning for drives… ");
    assert_eq!(drive_list_title(false, 0), " 💾  No drives found ");
    assert_eq!(drive_list_title(false, 12), " 💾  USB Drives (12) ");
}

#[test]
fn confirmation_texts() {
    assert!(drive_ready(&Some(drive(false, false))));
    assert!(!drive_ready(&Some(drive(false, true))));
    assert!(!drive_ready(&Some(drive(true, false))));
    assert!(!drive_ready(&None));
    assert_eq!(target_description(&Some(drive(false, false))), "SanDisk (/dev/sdb)");
    assert_eq!(target_description(&None), "—");
    assert_eq!(ready_banner(&Some(drive(false, false))), "  Your USB drive (SanDisk) is ready.");
    assert_eq!(ready_banner(&None), "");
}

#[test]
fn storage_warning_needs_known_drive_size() {
    assert!(image_exceeds_drive(10, 5));
    assert!(!image_exceeds_drive(5, 5));
    assert!(!image_exceeds_drive(10, 0));
}

#[test]
fn breadcrumb_states_and_labels() {
    let b = breadcrumbs(2);
    assert_eq!(b.len(), 3);
    assert_eq!(b[0], (StepState::Done, "✓. Select Image".to_string()));
    assert_eq!(b[1], (StepState::Active, "2. Select Drive".to_string()));
    assert_eq!(b[2], (StepState::Upcoming, "3. Flash".to_string()));
    let first = breadcrumbs(1);
    assert_eq!(first[0], (StepState::Active, "1. Select Image".to_string()));
}

#[test]
fn log_tones() {
    assert_eq!(log_tone("Write ERROR at block 7"), LogTone::Error);
    assert_eq!(log_tone("Flash complete"), LogTone::Success);
    assert_eq!(log_tone("Sync done"), LogTone::Success);
    assert_eq!(log_tone("WRITING"), LogTone::Heading);
    assert_eq!(log_tone("writing image"), LogTone::Plain);
    assert_eq!(log_tone(""), LogTone::Plain);
}

#[test]
fn log_tail_keeps_newest_lines_in_order() {
    let log: Vec<String> = ["a", "b", "c", "d"].iter().map(|s| s.to_string()).collect();
    assert_eq!(log_tail(&log, 2), vec!["c".to_string(), "d".to_string()]);
    assert_eq!(log_tail(&log, 10), log);
    assert!(log_tail(&log, 0).is_empty());
}

#[test]
fn contents_position_only_when_list_overflows() {
    assert_eq!(contents_scroll_info(3, 40, 10), " (3/40) ");
    assert_eq!(contents_scroll_info(55, 40, 10), " (40/40) ");
    assert_eq!(contents_scroll_info(0, 5, 10), "");
}

#[test]
fn dialog_is_centred_and_clamped() {
    let r = Area { x: 2, y: 1, width: 80, height: 24 };
    assert_eq!(centred_area(r, 64, 18), Area { x: 10, y: 4, width: 64, height: 18 });
    assert_eq!(centred_area(r, 100, 30), Area { x: 2, y: 1, width: 80, height: 24 });
}

#[test]
fn row_marks_show_cursor_and_chosen_drive() {
    let d = drive(false, false);
    let mut other = drive(false, false);
    other.device_path = "/dev/sdc".into();
    assert_eq!(row_marks(true, &Some(d.clone()), &d), (" ▶ ", "☑ "));
    assert_eq!(row_marks(false, &Some(other.clone()), &d), ("   ", "☐ "));
    assert_eq!(row_marks(false, &None, &d), ("   ", "☐ "));
}
