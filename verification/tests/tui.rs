use flashkraft::file_explorer::DirItem;
use flashkraft::keys::{Key, KeyPress};
use flashkraft::tui::{
    mount_point_for, order_drives, App, AppScreen, DriveInfo, FlashEvent, ImageInfo, ImageProbe, InputMode, Request,
    UsbEntry, MAX_LOG,
};

fn key(k: Key) -> KeyPress {
    KeyPress::plain(k)
}

fn ctrl(k: Key) -> KeyPress {
    KeyPress::ctrl(k)
}

fn make_drive(name: &str, device: &str) -> DriveInfo {
    DriveInfo {
        name: name.into(),
        device_path: device.into(),
        mount_point: format!("/media/{name}"),
        size_bytes: 16 * 1024 * 1024 * 1024,
        is_system: false,
        is_read_only: false,
        usb_info: None,
    }
}

fn app_on(screen: AppScreen) -> App {
    let mut app = App::new();
    app.screen = screen;
    app
}

fn app_with_drives(screen: AppScreen) -> App {
    let mut app = app_on(screen);
    app.available_drives = vec![
        make_drive("USB_A", "/dev/sdb"),
        make_drive("USB_B", "/dev/sdc"),
        make_drive("USB_C", "/dev/sdd"),
    ];
    app.selected_image = Some(ImageInfo {
        path: "/tmp/test.img".into(),
        name: "test.img".into(),
        size_bytes: 1024 * 1024,
    });
    app
}

fn app_complete_with_entries(n: usize) -> App {
    let mut app = app_on(AppScreen::Complete);
    app.usb_contents = (0..n)
        .map(|i| UsbEntry {
            name: format!("file_{i}"),
            size_bytes: 0,
            is_dir: false,
            depth: 0,
        })
        .collect();
    app
}

// ── Global shortcuts ────────────────────────────────────────────────────────

#[test]
fn ctrl_c_sets_should_quit_on_non_flash_screen() {
    let mut app = App::new();
    let consumed = app.handle_key(ctrl(Key::Char('c')));
    assert!(consumed, "Ctrl-C must be consumed");
    assert!(app.should_quit, "Ctrl-C must set should_quit");
    assert_eq!(app.screen, AppScreen::SelectImage, "screen must not change");
}

#[test]
fn ctrl_c_cancels_flash_when_flashing() {
    let mut app = app_on(AppScreen::Flashing);
    let consumed = app.handle_key(ctrl(Key::Char('c')));
    assert!(consumed);
    assert!(!app.should_quit);
    assert_eq!(app.screen, AppScreen::Error);
    assert_eq!(app.request, Some(Request::CancelFlash));
}

#[test]
fn ctrl_q_sets_should_quit_always() {
    for screen in [
        AppScreen::SelectImage,
        AppScreen::SelectDrive,
        AppScreen::DriveInfo,
        AppScreen::ConfirmFlash,
        AppScreen::Complete,
        AppScreen::Error,
    ] {
        let mut app = app_on(screen);
        let consumed = app.handle_key(ctrl(Key::Char('q')));
        assert!(consumed, "Ctrl-Q must be consumed on {screen:?}");
        assert!(app.should_quit, "Ctrl-Q must quit on {screen:?}");
    }
}

// ── SelectImage — Editing mode ──────────────────────────────────────────────

#[test]
fn select_image_editing_char_inserts_and_consumes() {
    let mut app = App::new();
    assert_eq!(app.input_mode, InputMode::Editing);
    let consumed = app.handle_key(key(Key::Char('a')));
    assert!(consumed);
    assert_eq!(app.image_input, "a");
    assert_eq!(app.image_cursor, 1);
}

#[test]
fn select_image_editing_multiple_chars_build_string() {
    let mut app = App::new();
    for c in "hello".chars() {
        app.handle_key(key(Key::Char(c)));
    }
    assert_eq!(app.image_input, "hello");
    assert_eq!(app.image_cursor, 5);
}

#[test]
fn select_image_editing_backspace_deletes_char() {
    let mut app = App::new();
    for c in "path".chars() {
        app.image_insert(c);
    }
    let consumed = app.handle_key(key(Key::Backspace));
    assert!(consumed);
    assert_eq!(app.image_input, "pat");
}

#[test]
fn select_image_editing_delete_removes_char_under_cursor() {
    let mut app = App::new();
    for c in "abc".chars() {
        app.image_insert(c);
    }
    app.image_cursor = 1;
    let consumed = app.handle_key(key(Key::Delete));
    assert!(consumed);
    assert_eq!(app.image_input.len(), 2);
    assert_eq!(app.image_input, "ac");
}

#[test]
fn select_image_editing_left_moves_cursor() {
    let mut app = App::new();
    app.image_insert('x');
    app.image_insert('y');
    app.handle_key(key(Key::Left));
    assert_eq!(app.image_cursor, 1);
}

#[test]
fn select_image_editing_right_moves_cursor() {
    let mut app = App::new();
    app.image_insert('x');
    app.image_insert('y');
    app.image_cursor = 0;
    app.handle_key(key(Key::Right));
    assert_eq!(app.image_cursor, 1);
}

#[test]
fn select_image_editing_home_moves_cursor_to_start() {
    let mut app = App::new();
    for c in "some/path".chars() {
        app.image_insert(c);
    }
    assert_eq!(app.image_cursor, 9);
    app.handle_key(key(Key::Home));
    assert_eq!(app.image_cursor, 0);
}

#[test]
fn select_image_editing_end_moves_cursor_to_end() {
    let mut app = App::new();
    for c in "some/path".chars() {
        app.image_insert(c);
    }
    app.image_cursor = 0;
    app.handle_key(key(Key::End));
    assert_eq!(app.image_cursor, 9);
}

#[test]
fn insert_in_the_middle_counts_characters() {
    let mut app = App::new();
    for c in "ñé".chars() {
        app.image_insert(c);
    }
    app.image_cursor = 1;
    app.image_insert('x');
    assert_eq!(app.image_input, "ñxé");
    assert_eq!(app.image_cursor, 2);
}

#[test]
fn select_image_editing_esc_quits() {
    let mut app = App::new();
    assert_eq!(app.input_mode, InputMode::Editing);
    app.handle_key(key(Key::Esc));
    assert!(app.should_quit);
}

#[test]
fn select_image_editing_enter_with_missing_file_goes_to_error() {
    let mut app = App::new();
    app.image_input = "/definitely/nonexistent/path.iso".into();
    app.handle_key(key(Key::Enter));
    assert_eq!(app.take_request(), Some(Request::CheckImage));
    app.image_checked(ImageProbe { exists: false, is_file: false, size_bytes: 0 });
    assert_eq!(app.screen, AppScreen::Error);
    assert!(!app.error_message.is_empty());
    assert_eq!(app.error_message, "File not found: /definitely/nonexistent/path.iso");
}

#[test]
fn select_image_editing_enter_with_valid_file_advances() {
    let mut app = App::new();
    app.image_input = "  /tmp/fk_evt_test.img ".into();
    app.handle_key(key(Key::Enter));
    assert_eq!(app.image_path(), "/tmp/fk_evt_test.img");
    app.image_checked(ImageProbe { exists: true, is_file: true, size_bytes: 1024 });
    assert_eq!(app.screen, AppScreen::SelectDrive);
    assert_eq!(app.input_mode, InputMode::Normal);
    assert!(app.drives_loading);
    assert_eq!(app.request, Some(Request::DetectDrives));
    let image = app.selected_image.as_ref().unwrap();
    assert_eq!(image.name, "fk_evt_test.img");
    assert_eq!(image.path, "/tmp/fk_evt_test.img");
}

#[test]
fn image_probe_errors() {
    let mut app = App::new();
    app.image_input = "/tmp".into();
    app.image_checked(ImageProbe { exists: true, is_file: false, size_bytes: 0 });
    assert_eq!(app.error_message, "Not a file: /tmp");
    let mut app = App::new();
    app.image_input = "/tmp/empty.img".into();
    app.image_checked(ImageProbe { exists: true, is_file: true, size_bytes: 0 });
    assert_eq!(app.error_message, "Image file appears to be empty.");
    assert_eq!(app.screen, AppScreen::Error);
}

#[test]
fn tab_opens_the_browser() {
    let mut app = App::new();
    assert!(app.handle_key(key(Key::Tab)));
    assert_eq!(app.screen, AppScreen::BrowseImage);
    assert_eq!(app.request, Some(Request::OpenBrowser));
    // Ctrl-F does the same, a bare `f` is typed.
    let mut app = App::new();
    app.handle_key(key(Key::Char('f')));
    assert_eq!(app.image_input, "f");
    app.handle_key(ctrl(Key::Char('f')));
    assert_eq!(app.screen, AppScreen::BrowseImage);
}

#[test]
fn browser_choice_fills_the_field() {
    let mut app = App::new();
    app.handle_key(key(Key::Tab));
    app.file_explorer.navigate_to(
        "/tmp/images".into(),
        vec![DirItem {
            name: "ubuntu.iso".into(),
            path: "/tmp/images/ubuntu.iso".into(),
            is_dir: false,
            size: Some(10),
        }],
    );
    assert!(app.handle_key(key(Key::Enter)));
    assert_eq!(app.screen, AppScreen::SelectImage);
    assert_eq!(app.input_mode, InputMode::Editing);
    assert_eq!(app.image_input, "/tmp/images/ubuntu.iso");
    assert_eq!(app.image_cursor, 22);
}

#[test]
fn browser_dismiss_returns_to_typing() {
    let mut app = App::new();
    app.handle_key(key(Key::Tab));
    assert!(app.handle_key(key(Key::Esc)));
    assert_eq!(app.screen, AppScreen::SelectImage);
    assert_eq!(app.input_mode, InputMode::Editing);
}

// ── SelectImage — Normal mode ───────────────────────────────────────────────

#[test]
fn select_image_normal_enter_switches_to_editing() {
    let mut app = App::new();
    app.input_mode = InputMode::Normal;
    app.handle_key(key(Key::Enter));
    assert_eq!(app.input_mode, InputMode::Editing);
}

#[test]
fn select_image_normal_i_switches_to_editing() {
    let mut app = App::new();
    app.input_mode = InputMode::Normal;
    app.handle_key(key(Key::Char('i')));
    assert_eq!(app.input_mode, InputMode::Editing);
}

#[test]
fn select_image_normal_esc_quits() {
    let mut app = App::new();
    app.input_mode = InputMode::Normal;
    app.handle_key(key(Key::Esc));
    assert!(app.should_quit);
}

#[test]
fn select_image_normal_q_quits() {
    let mut app = App::new();
    app.input_mode = InputMode::Normal;
    app.handle_key(key(Key::Char('q')));
    assert!(app.should_quit);
}

// ── SelectDrive screen ──────────────────────────────────────────────────────

#[test]
fn select_drive_down_increments_cursor() {
    let mut app = app_with_drives(AppScreen::SelectDrive);
    app.handle_key(key(Key::Down));
    assert_eq!(app.drive_cursor, 1);
}

#[test]
fn select_drive_j_increments_cursor() {
    let mut app = app_with_drives(AppScreen::SelectDrive);
    app.handle_key(key(Key::Char('j')));
    assert_eq!(app.drive_cursor, 1);
}

#[test]
fn select_drive_up_decrements_cursor() {
    let mut app = app_with_drives(AppScreen::SelectDrive);
    app.drive_cursor = 2;
    app.handle_key(key(Key::Up));
    assert_eq!(app.drive_cursor, 1);
}

#[test]
fn select_drive_k_decrements_cursor() {
    let mut app = app_with_drives(AppScreen::SelectDrive);
    app.drive_cursor = 2;
    app.handle_key(key(Key::Char('k')));
    assert_eq!(app.drive_cursor, 1);
}

#[test]
fn select_drive_enter_confirms_valid_drive() {
    let mut app = app_with_drives(AppScreen::SelectDrive);
    app.handle_key(key(Key::Enter));
    assert_eq!(app.screen, AppScreen::DriveInfo);
    assert!(app.selected_drive.is_some());
}

#[test]
fn select_drive_space_confirms_valid_drive() {
    let mut app = app_with_drives(AppScreen::SelectDrive);
    app.handle_key(key(Key::Char(' ')));
    assert_eq!(app.screen, AppScreen::DriveInfo);
}

#[test]
fn select_drive_enter_on_empty_list_is_noop() {
    let mut app = app_on(AppScreen::SelectDrive);
    app.handle_key(key(Key::Enter));
    assert_eq!(app.screen, AppScreen::SelectDrive);
}

#[test]
fn system_and_read_only_drives_are_refused() {
    let mut app = app_with_drives(AppScreen::SelectDrive);
    app.available_drives[0].is_system = true;
    app.handle_key(key(Key::Enter));
    assert_eq!(app.screen, AppScreen::Error);
    assert_eq!(
        app.error_message,
        "USB_A is a system drive and cannot be used as a flash target."
    );
    let mut app = app_with_drives(AppScreen::SelectDrive);
    app.available_drives[1].is_read_only = true;
    app.drive_cursor = 1;
    app.handle_key(key(Key::Enter));
    assert_eq!(app.error_message, "USB_B is read-only.");
}

#[test]
fn select_drive_backspace_goes_back_to_select_image() {
    let mut app = app_with_drives(AppScreen::SelectDrive);
    app.handle_key(key(Key::Backspace));
    assert_eq!(app.screen, AppScreen::SelectImage);
    assert_eq!(app.input_mode, InputMode::Editing);
}

#[test]
fn select_drive_esc_goes_back_to_select_image() {
    let mut app = app_with_drives(AppScreen::SelectDrive);
    app.handle_key(key(Key::Esc));
    assert_eq!(app.screen, AppScreen::SelectImage);
}

#[test]
fn select_drive_b_goes_back_to_select_image() {
    let mut app = app_with_drives(AppScreen::SelectDrive);
    app.handle_key(key(Key::Char('b')));
    assert_eq!(app.screen, AppScreen::SelectImage);
}

#[test]
fn select_drive_refresh_retriggers_loading() {
    let mut app = app_with_drives(AppScreen::SelectDrive);
    app.drives_loading = false;
    app.handle_key(key(Key::Char('r')));
    assert!(app.drives_loading);
    assert_eq!(app.request, Some(Request::DetectDrives));
    assert!(app.available_drives.is_empty());
}

#[test]
fn select_drive_f5_retriggers_loading() {
    let mut app = app_with_drives(AppScreen::SelectDrive);
    app.drives_loading = false;
    app.handle_key(key(Key::F(5)));
    assert!(app.drives_loading);
}

#[test]
fn detected_drives_replace_the_list() {
    let mut app = app_on(AppScreen::SelectDrive);
    app.start_drive_detection();
    app.drives_detected(vec![make_drive("X", "/dev/sdx")]);
    assert!(!app.drives_loading);
    assert_eq!(app.drive_cursor, 0);
    assert_eq!(app.available_drives.len(), 1);
}

// ── DriveInfo screen ────────────────────────────────────────────────────────

#[test]
fn drive_info_enter_advances_to_confirm_flash() {
    let mut app = app_on(AppScreen::DriveInfo);
    app.handle_key(key(Key::Enter));
    assert_eq!(app.screen, AppScreen::ConfirmFlash);
}

#[test]
fn drive_info_f_advances_to_confirm_flash() {
    let mut app = app_on(AppScreen::DriveInfo);
    app.handle_key(key(Key::Char('f')));
    assert_eq!(app.screen, AppScreen::ConfirmFlash);
}

#[test]
fn drive_info_esc_goes_back_to_select_drive() {
    let mut app = app_on(AppScreen::DriveInfo);
    app.handle_key(key(Key::Esc));
    assert_eq!(app.screen, AppScreen::SelectDrive);
}

#[test]
fn drive_info_backspace_goes_back_to_select_drive() {
    let mut app = app_on(AppScreen::DriveInfo);
    app.handle_key(key(Key::Backspace));
    assert_eq!(app.screen, AppScreen::SelectDrive);
}

#[test]
fn drive_info_b_goes_back_to_select_drive() {
    let mut app = app_on(AppScreen::DriveInfo);
    app.handle_key(key(Key::Char('b')));
    assert_eq!(app.screen, AppScreen::SelectDrive);
}

// ── ConfirmFlash screen ─────────────────────────────────────────────────────

#[test]
fn confirm_flash_n_goes_back_to_drive_info() {
    let mut app = app_on(AppScreen::ConfirmFlash);
    app.handle_key(key(Key::Char('n')));
    assert_eq!(app.screen, AppScreen::DriveInfo);
}

#[test]
fn confirm_flash_capital_n_goes_back_to_drive_info() {
    let mut app = app_on(AppScreen::ConfirmFlash);
    app.handle_key(key(Key::Char('N')));
    assert_eq!(app.screen, AppScreen::DriveInfo);
}

#[test]
fn confirm_flash_esc_goes_back_to_drive_info() {
    let mut app = app_on(AppScreen::ConfirmFlash);
    app.handle_key(key(Key::Esc));
    assert_eq!(app.screen, AppScreen::DriveInfo);
}

#[test]
fn confirm_flash_b_goes_back_to_drive_info() {
    let mut app = app_on(AppScreen::ConfirmFlash);
    app.handle_key(key(Key::Char('b')));
    assert_eq!(app.screen, AppScreen::DriveInfo);
}

#[test]
fn confirm_flash_y_without_selections_shows_error() {
    let mut app = app_on(AppScreen::ConfirmFlash);
    app.handle_key(key(Key::Char('y')));
    assert_eq!(app.screen, AppScreen::Error);
    assert!(!app.error_message.is_empty());
    assert_eq!(app.error_message, "No image selected.");
}

#[test]
fn confirm_flash_capital_y_without_selections_shows_error() {
    let mut app = app_on(AppScreen::ConfirmFlash);
    app.handle_key(key(Key::Char('Y')));
    assert_eq!(app.screen, AppScreen::Error);
}

#[test]
fn confirm_flash_y_with_selections_starts_the_flash() {
    let mut app = app_with_drives(AppScreen::SelectDrive);
    app.handle_key(key(Key::Enter));
    app.handle_key(key(Key::Enter));
    assert_eq!(app.screen, AppScreen::ConfirmFlash);
    app.handle_key(key(Key::Char('y')));
    assert_eq!(app.screen, AppScreen::Flashing);
    assert_eq!(app.request, Some(Request::StartFlash));
    assert_eq!(app.flash_stage, "Starting…");
    assert!(app.flash_log.is_empty());
}

// ── Flashing screen ─────────────────────────────────────────────────────────

#[test]
fn flashing_c_cancels_operation() {
    let mut app = app_on(AppScreen::Flashing);
    let consumed = app.handle_key(key(Key::Char('c')));
    assert!(consumed);
    assert_eq!(app.screen, AppScreen::Error);
    assert!(!app.error_message.is_empty());
}

#[test]
fn flashing_esc_cancels_operation() {
    let mut app = app_on(AppScreen::Flashing);
    app.handle_key(key(Key::Esc));
    assert_eq!(app.screen, AppScreen::Error);
}

#[test]
fn flashing_other_keys_not_consumed() {
    let mut app = app_on(AppScreen::Flashing);
    let consumed = app.handle_key(key(Key::Char('x')));
    assert!(!consumed, "unrelated keys should not be consumed");
    assert_eq!(app.screen, AppScreen::Flashing);
}

#[test]
fn flash_updates_fill_stage_and_log() {
    let mut app = app_with_drives(AppScreen::Flashing);
    app.selected_drive = Some(make_drive("USB_A", "/dev/sdb"));
    app.apply_flash_event(FlashEvent::Stage("Writing image to device…".into()));
    app.apply_flash_event(FlashEvent::Progress(4096));
    app.apply_flash_event(FlashEvent::Log("syncing".into()));
    assert_eq!(app.flash_stage, "Writing image to device…");
    assert_eq!(app.flash_bytes, 4096);
    assert_eq!(app.flash_log, vec!["Writing image to device…".to_string(), "syncing".to_string()]);
    app.apply_flash_event(FlashEvent::Completed);
    assert_eq!(app.screen, AppScreen::Complete);
    assert_eq!(app.flash_stage, "Complete!");
    assert_eq!(app.flash_log.last().unwrap(), "Flash operation completed successfully.");
    assert_eq!(app.request, Some(Request::ScanUsb));
    app.usb_scanned(None);
    assert_eq!(app.usb_contents.len(), 1);
    assert_eq!(app.usb_contents[0].name, "(device not mounted — re-plug to browse)");
}

#[test]
fn flash_failure_shows_error() {
    let mut app = app_on(AppScreen::Flashing);
    app.apply_flash_event(FlashEvent::Failed("disk write failed".into()));
    assert_eq!(app.screen, AppScreen::Error);
    assert_eq!(app.error_message, "disk write failed");
}

#[test]
fn flash_log_keeps_the_newest_lines() {
    let mut app = app_on(AppScreen::Flashing);
    for i in 0..(MAX_LOG + 5) {
        app.push_log(format!("line {i}"));
    }
    assert_eq!(app.flash_log.len(), MAX_LOG);
    assert_eq!(app.flash_log[0], "line 5");
    assert_eq!(app.flash_log.last().unwrap(), &format!("line {}", MAX_LOG + 4));
}

// ── Complete screen ─────────────────────────────────────────────────────────

#[test]
fn complete_down_increments_scroll() {
    let mut app = app_complete_with_entries(10);
    app.handle_key(key(Key::Down));
    assert_eq!(app.contents_scroll, 1);
}

#[test]
fn complete_j_increments_scroll() {
    let mut app = app_complete_with_entries(10);
    app.handle_key(key(Key::Char('j')));
    assert_eq!(app.contents_scroll, 1);
}

#[test]
fn complete_up_decrements_scroll() {
    let mut app = app_complete_with_entries(10);
    app.contents_scroll = 5;
    app.handle_key(key(Key::Up));
    assert_eq!(app.contents_scroll, 4);
}

#[test]
fn complete_k_decrements_scroll() {
    let mut app = app_complete_with_entries(10);
    app.contents_scroll = 5;
    app.handle_key(key(Key::Char('k')));
    assert_eq!(app.contents_scroll, 4);
}

#[test]
fn complete_page_down_scrolls_by_ten() {
    let mut app = app_complete_with_entries(25);
    app.handle_key(key(Key::PageDown));
    assert_eq!(app.contents_scroll, 10);
}

#[test]
fn complete_page_up_scrolls_by_ten() {
    let mut app = app_complete_with_entries(25);
    app.contents_scroll = 15;
    app.handle_key(key(Key::PageUp));
    assert_eq!(app.contents_scroll, 5);
}

#[test]
fn complete_page_up_clamps_at_zero() {
    let mut app = app_complete_with_entries(25);
    app.contents_scroll = 3;
    app.handle_key(key(Key::PageUp));
    assert_eq!(app.contents_scroll, 0);
}

#[test]
fn complete_r_resets_to_select_image() {
    let mut app = app_complete_with_entries(5);
    app.handle_key(key(Key::Char('r')));
    assert_eq!(app.screen, AppScreen::SelectImage);
    assert!(app.usb_contents.is_empty());
    assert_eq!(app.input_mode, InputMode::Editing);
}

#[test]
fn complete_capital_r_resets_to_select_image() {
    let mut app = app_complete_with_entries(5);
    app.handle_key(key(Key::Char('R')));
    assert_eq!(app.screen, AppScreen::SelectImage);
}

#[test]
fn complete_q_quits() {
    let mut app = app_complete_with_entries(5);
    app.handle_key(key(Key::Char('q')));
    assert!(app.should_quit);
}

#[test]
fn complete_esc_quits() {
    let mut app = app_complete_with_entries(5);
    app.handle_key(key(Key::Esc));
    assert!(app.should_quit);
}

// ── Error screen ────────────────────────────────────────────────────────────

#[test]
fn error_r_resets_to_select_image() {
    let mut app = app_on(AppScreen::Error);
    app.handle_key(key(Key::Char('r')));
    assert_eq!(app.screen, AppScreen::SelectImage);
}

#[test]
fn error_enter_resets_to_select_image() {
    let mut app = app_on(AppScreen::Error);
    app.handle_key(key(Key::Enter));
    assert_eq!(app.screen, AppScreen::SelectImage);
}

#[test]
fn error_q_quits() {
    let mut app = app_on(AppScreen::Error);
    app.handle_key(key(Key::Char('q')));
    assert!(app.should_quit);
}

#[test]
fn error_esc_quits() {
    let mut app = app_on(AppScreen::Error);
    app.handle_key(key(Key::Esc));
    assert!(app.should_quit);
}

#[test]
fn error_unrelated_key_not_consumed() {
    let mut app = app_on(AppScreen::Error);
    let consumed = app.handle_key(key(Key::Char('x')));
    assert!(!consumed);
    assert_eq!(app.screen, AppScreen::Error);
}

#[test]
fn consumed_flag_true_for_recognised_keys() {
    let mut app = app_on(AppScreen::DriveInfo);
    assert!(app.handle_key(key(Key::Enter)));
}

#[test]
fn consumed_flag_false_for_unrecognised_keys_on_drive_info() {
    let mut app = app_on(AppScreen::DriveInfo);
    assert!(!app.handle_key(key(Key::Char('z'))));
}

// ── Start over and mount points ─────────────────────────────────────────────

#[test]
fn reset_gives_a_fresh_app() {
    let mut app = app_with_drives(AppScreen::Complete);
    app.error_message = "x".into();
    app.reset();
    assert_eq!(app.screen, AppScreen::SelectImage);
    assert_eq!(app.input_mode, InputMode::Editing);
    assert!(app.available_drives.is_empty());
    assert!(app.selected_image.is_none());
    assert_eq!(app.flash_stage, "Initialising…");
    assert_eq!(app.file_explorer.extension_filter.len(), 7);
}

#[test]
fn mount_point_for_finds_partitions_and_skips_root() {
    let table = "sysfs /sys sysfs rw 0 0\n/dev/sda2 / ext4 rw 0 0\n/dev/sdb1 /media/usb vfat rw 0 0\n";
    assert_eq!(mount_point_for(table, "/dev/sdb"), Some("/media/usb".to_string()));
    assert_eq!(mount_point_for(table, "/dev/sda"), None);
    assert_eq!(mount_point_for(table, "/dev/sdc"), None);
    assert_eq!(mount_point_for("", "/dev/sdb"), None);
}

#[test]
fn drives_are_ordered_by_device_path() {
    let drives = vec![
        make_drive("C", "/dev/sdc"),
        make_drive("A", "/dev/sda"),
        make_drive("B1", "/dev/sdb"),
        make_drive("B2", "/dev/sdb"),
    ];
    let names: Vec<String> = order_drives(drives).into_iter().map(|d| d.name).collect();
    assert_eq!(names, vec!["A", "B1", "B2", "C"]);
}

#[test]
fn hotplug_refreshes_only_the_drive_list() {
    let mut app = app_with_drives(AppScreen::SelectDrive);
    app.on_hotplug();
    assert!(app.drives_loading);
    assert_eq!(app.request, Some(Request::DetectDrives));
    let mut app = app_on(AppScreen::DriveInfo);
    app.on_hotplug();
    assert!(!app.drives_loading);
    assert_eq!(app.request, None);
}

#[test]
fn backspace_undoes_insert_in_the_middle() {
    let mut app = App::new();
    for c in "abc".chars() {
        app.image_insert(c);
    }
    app.image_cursor = 1;
    app.image_insert('X');
    assert_eq!(app.image_input, "aXbc");
    app.image_backspace();
    assert_eq!(app.image_input, "abc");
    assert_eq!(app.image_cursor, 1);
}
