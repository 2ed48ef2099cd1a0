use flashkraft::flash_helper::FlashEvent;
use flashkraft::flash_writer::FlashStage;
use flashkraft::gui::{
    FlashStream, StreamInput,
    channel_closed_message, event_message, image_size_check, GuiCommand, Message, FlashKraft,
    ProgressMark,
};
use flashkraft::tui::{DriveInfo, ImageInfo};

fn image() -> ImageInfo {
    ImageInfo { path: "/tmp/test.img".into(), name: "test.img".into(), size_bytes: 100 * 1024 * 1024 }
}

fn drive(name: &str, device: &str) -> DriveInfo {
    DriveInfo {
        name: name.into(),
        device_path: device.into(),
        mount_point: "/media/usb".into(),
        size_bytes: 32 * 1024 * 1024 * 1024,
        is_system: false,
        is_read_only: false,
        usb_info: None,
    }
}

#[test]
fn state_test_new_state() {
    let state = FlashKraft::new();
    assert!(state.selected_image.is_none());
    assert!(state.selected_target.is_none());
    assert!(state.available_drives.is_empty());
    assert!(!state.is_ready_to_flash());
    assert!(!state.device_selection_open);
}

#[test]
fn state_test_is_ready_to_flash() {
    let mut state = FlashKraft::new();
    assert!(!state.is_ready_to_flash());
    state.selected_image = Some(image());
    assert!(!state.is_ready_to_flash());
    state.selected_target = Some(drive("USB", "/dev/sdb"));
    assert!(state.is_ready_to_flash());
}

#[test]
fn state_test_is_flashing() {
    let mut state = FlashKraft::new();
    assert!(!state.is_flashing());
    state.progress = ProgressMark::Partial;
    assert!(state.is_flashing());
    assert!(!state.is_flash_complete());
}

#[test]
fn state_test_reset() {
    let mut state = FlashKraft::new();
    state.selected_image = Some(image());
    state.progress = ProgressMark::Partial;
    state.error_message = Some("Error".into());
    state.device_selection_open = true;
    state.reset();
    assert!(state.selected_image.is_none());
    assert!(!state.is_flashing());
    assert!(state.error_message.is_none());
    assert!(!state.device_selection_open);
}

#[test]
fn test_cancel_clicked() {
    let mut state = FlashKraft::new();
    state.selected_image = Some(image());
    assert_eq!(state.update(Message::CancelClicked), GuiCommand::Nothing);
    assert!(state.selected_image.is_none());
}

#[test]
fn test_target_drive_clicked() {
    let mut state = FlashKraft::new();
    state.device_selection_open = true;
    let _ = state.update(Message::TargetDriveClicked(drive("USB", "/dev/sdb")));
    assert_eq!(state.selected_target.as_ref().unwrap().name, "USB");
    assert!(!state.device_selection_open);
}

#[test]
fn test_image_selected() {
    let mut state = FlashKraft::new();
    let _ = state.update(Message::ImageSelected(Some(image())));
    assert!(state.selected_image.is_some());
}

#[test]
fn test_flash_clicked_without_selections() {
    let mut state = FlashKraft::new();
    let _ = state.update(Message::FlashClicked);
    assert!(state.error_message.is_some());
    assert!(!state.is_flashing());
    assert_eq!(
        state.error_message.as_deref(),
        Some("Please select both an image file and a target drive")
    );
}

#[test]
fn flash_clicked_with_selections_starts() {
    let mut state = FlashKraft::new();
    state.selected_image = Some(image());
    state.selected_target = Some(drive("USB", "/dev/sdb"));
    let _ = state.update(Message::FlashClicked);
    assert!(state.flashing_active);
    assert!(state.is_flashing());
    let _ = state.update(Message::FlashProgressUpdate(512, false));
    assert_eq!(state.flash_bytes_written, 512);
    assert!(!state.is_flash_complete());
}

#[test]
fn test_flash_completed_success() {
    let mut state = FlashKraft::new();
    state.progress = ProgressMark::Partial;
    let _ = state.update(Message::FlashCompleted(Ok(())));
    assert!(state.is_flash_complete());
    assert!(state.error_message.is_none());
}

#[test]
fn test_flash_completed_error() {
    let mut state = FlashKraft::new();
    state.progress = ProgressMark::Partial;
    let _ = state.update(Message::FlashCompleted(Err("Test error".to_string())));
    assert!(!state.is_flashing());
    assert_eq!(state.error_message.as_deref(), Some("Test error"));
}

#[test]
fn test_reset_clicked() {
    let mut state = FlashKraft::new();
    state.selected_image = Some(image());
    state.progress = ProgressMark::Full;
    assert_eq!(state.update(Message::ResetClicked), GuiCommand::LoadDrives);
    assert!(state.selected_image.is_none());
    assert!(!state.is_flashing());
}

#[test]
fn cancel_flash_reports_cancellation() {
    let mut state = FlashKraft::new();
    state.flashing_active = true;
    state.progress = ProgressMark::Partial;
    state.flash_bytes_written = 10;
    let _ = state.update(Message::CancelFlash);
    assert!(!state.flashing_active);
    assert!(!state.is_flashing());
    assert_eq!(state.flash_bytes_written, 0);
    assert_eq!(state.error_message.as_deref(), Some("Flash operation cancelled by user"));
}

#[test]
fn commands_for_pickers_and_drive_lists() {
    let mut state = FlashKraft::new();
    assert_eq!(state.update(Message::SelectImageClicked), GuiCommand::PickImage);
    assert_eq!(state.update(Message::RefreshDrivesClicked), GuiCommand::LoadDrives);
    assert_eq!(state.update(Message::OpenDeviceSelection), GuiCommand::LoadDrives);
    assert!(state.device_selection_open);
    assert_eq!(state.update(Message::CloseDeviceSelection), GuiCommand::Nothing);
    assert!(!state.device_selection_open);
    let _ = state.update(Message::DrivesRefreshed(vec![drive("A", "/dev/sda")]));
    assert_eq!(state.available_drives.len(), 1);
}

#[test]
fn has_error_follows_the_message() {
    let mut state = FlashKraft::new();
    assert!(!state.has_error());
    let _ = state.update(Message::FlashClicked);
    assert!(state.has_error());
    let _ = state.update(Message::ImageSelected(None));
    assert!(!state.has_error());
}

#[test]
fn pipeline_events_become_messages() {
    match event_message(FlashEvent::Stage(FlashStage::Writing), false) {
        (Message::Status(s), false) => assert_eq!(s, "Writing image to device…"),
        _ => panic!("a stage becomes a status line"),
    }
    match event_message(FlashEvent::Progress { bytes_written: 512, total_bytes: 1024 }, false) {
        (Message::FlashProgressUpdate(512, false), false) => {}
        _ => panic!("progress keeps its byte count"),
    }
    match event_message(FlashEvent::Log("syncing".into()), false) {
        (Message::Status(s), false) => assert_eq!(s, "syncing"),
        _ => panic!("a log line becomes a status line"),
    }
    assert!(matches!(event_message(FlashEvent::Done, true), (Message::FlashCompleted(Ok(())), true)));
    match event_message(FlashEvent::Error("boom".into()), false) {
        (Message::FlashCompleted(Err(e)), true) => assert_eq!(e, "boom"),
        _ => panic!("an error ends the subscription"),
    }
}

#[test]
fn closed_channel_reports_cancellation_or_crash() {
    match channel_closed_message(true) {
        Message::FlashCompleted(Err(e)) => assert_eq!(e, "Flash operation cancelled by user"),
        _ => panic!("expected a failure"),
    }
    match channel_closed_message(false) {
        Message::FlashCompleted(Err(e)) => assert_eq!(e, "Flash thread terminated unexpectedly"),
        _ => panic!("expected a failure"),
    }
}

#[test]
fn image_size_checked_before_flashing() {
    assert_eq!(image_size_check(Ok(4096)), Ok(4096));
    assert_eq!(image_size_check(Ok(0)), Err("Image file is empty".to_string()));
    assert_eq!(
        image_size_check(Err("No such file or directory (os error 2)".into())),
        Err("Cannot read image file: No such file or directory (os error 2)".to_string())
    );
}

#[test]
fn completion_event_stops_flashing() {
    let mut state = FlashKraft::new();
    state.selected_image = Some(image());
    state.selected_target = Some(drive("USB", "/dev/sdb"));
    state.update(Message::FlashClicked);
    assert!(state.is_flashing());
    let (msg, stop) = event_message(FlashEvent::Done, true);
    assert!(stop);
    state.update(msg);
    assert!(!state.flashing_active);
    assert!(state.is_flash_complete());
    assert!(!state.has_error());
}

#[test]
fn model_test_new_state() {
    let state = FlashKraft::new();
    assert!(state.selected_image.is_none());
    assert!(state.selected_target.is_none());
    assert!(state.available_drives.is_empty());
    assert!(!state.is_ready_to_flash());
    assert!(!state.device_selection_open);
}

#[test]
fn model_test_is_ready_to_flash() {
    let mut state = FlashKraft::new();
    assert!(!state.is_ready_to_flash());
    state.selected_image = Some(ImageInfo {
        path: "/tmp/test.img".into(),
        name: "test.img".into(),
        size_bytes: 100 * 1024 * 1024,
    });
    assert!(!state.is_ready_to_flash());
    state.selected_target = Some(drive("USB", "/dev/sdb"));
    assert!(state.is_ready_to_flash());
}

#[test]
fn model_test_is_flashing() {
    let mut state = FlashKraft::new();
    assert!(!state.is_flashing());
    state.progress = ProgressMark::Partial;
    assert!(state.is_flashing());
}

#[test]
fn model_test_reset() {
    let mut state = FlashKraft::new();
    state.selected_image = Some(image());
    state.progress = ProgressMark::Partial;
    state.error_message = Some("Error".to_string());
    state.device_selection_open = true;
    state.reset();
    assert!(state.selected_image.is_none());
    assert_eq!(state.progress, ProgressMark::Idle);
    assert!(state.error_message.is_none());
    assert!(!state.device_selection_open);
}

#[test]
fn test_flash_event_mapping() {
    let events = vec![
        FlashEvent::Stage(FlashStage::Writing),
        FlashEvent::Progress { bytes_written: 512, total_bytes: 1024 },
        FlashEvent::Log("Test log".into()),
        FlashEvent::Done,
    ];
    for event in events {
        let full = match &event {
            FlashEvent::Progress { bytes_written, total_bytes } if *total_bytes > 0 => {
                (*bytes_written as f64 / *total_bytes as f64).clamp(0.0, 1.0) as f32 >= 1.0
            }
            _ => false,
        };
        let _message = event_message(event, full);
    }
}

#[test]
fn nothing_follows_the_final_message() {
    let (mut stream, first) = FlashStream::start(Ok(1024));
    assert!(first.is_none());
    let inputs = vec![
        StreamInput::Event(FlashEvent::Stage(FlashStage::Writing), false),
        StreamInput::Event(FlashEvent::Error("disk gone".into()), false),
        StreamInput::Event(FlashEvent::Done, true),
        StreamInput::Closed(false),
    ];
    let out: Vec<Message> = inputs.into_iter().filter_map(|i| stream.step(i)).collect();
    assert_eq!(out.len(), 2);
    assert!(matches!(&out[1], Message::FlashCompleted(Err(e)) if e == "disk gone"));
    assert!(stream.finished);
}

#[test]
fn stream_of_an_empty_image_fails_at_once() {
    let (mut stream, first) = FlashStream::start(Ok(0));
    assert!(matches!(first, Some(Message::FlashCompleted(Err(ref e))) if e == "Image file is empty"));
    assert!(stream.step(StreamInput::Event(FlashEvent::Done, true)).is_none());
}

#[test]
fn closed_channel_ends_the_stream() {
    let (mut stream, _) = FlashStream::start(Ok(8));
    assert!(matches!(stream.step(StreamInput::Event(FlashEvent::Log("x".into()), false)), Some(Message::Status(_))));
    assert!(matches!(
        stream.step(StreamInput::Closed(true)),
        Some(Message::FlashCompleted(Err(ref e))) if e == "Flash operation cancelled by user"
    ));
    assert!(stream.step(StreamInput::Closed(false)).is_none());
}
