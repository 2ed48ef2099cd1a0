use flashkraft::dd_script::{
    dd_outcome, flash_script, forward_update, image_size_from_metadata, read_dd_report, split_reports, status_lines,
    watch_step, ChildPoll, WatchAction,
};

#[test]
fn script_embeds_paths() {
    let s = flash_script("/tmp/a.img", "/dev/sdz");
    assert!(s.starts_with("#!/bin/bash\nset -e\n\nIMAGE=\"/tmp/a.img\"\nDEVICE=\"/dev/sdz\"\n\necho"));
    assert!(s.contains("done\n\n# Get image size\n"));
    assert!(s.ends_with("sync\n\necho \"STATUS:Flash operation completed!\"\n"));
    assert!(s.contains("for part in \"${DEVICE}\"*[0-9] \"${DEVICE}p\"*[0-9]; do"));
    assert!(s.contains("dd if=\"$IMAGE\" of=\"$DEVICE\" bs=4M status=progress oflag=direct conv=fsync\n"));
    assert!(s.ends_with("echo \"STATUS:Flash operation completed!\"\n"));
}

#[test]
fn reports_split_at_carriage_returns() {
    let (done, rest) = split_reports("1 bytes copied\r2 bytes copied\rpart");
    assert_eq!(done, vec!["1 bytes copied".to_string(), "2 bytes copied".to_string()]);
    assert_eq!(rest, "part");
    let (done, rest) = split_reports("no return yet");
    assert!(done.is_empty());
    assert_eq!(rest, "no return yet");
}

#[test]
fn dd_reports_give_bytes_and_speed() {
    assert_eq!(
        read_dd_report("536870912 bytes (537 MB, 512 MiB) copied, 15,1 s, 33,5 MB/s", false),
        Some((536_870_912, "33.5".to_string()))
    );
    assert_eq!(read_dd_report("no progress here", false), None);
    assert_eq!(read_dd_report("STATUS:Image size: 10 bytes", true), None);
    assert_eq!(read_dd_report("many bytes", false), None);
    // With two words the speed is read from the first one.
    assert_eq!(read_dd_report("5 bytes", false), Some((5, "5".to_string())));
}

#[test]
fn status_lines_are_collected() {
    let out = "STATUS:Starting flash operation\nnoise\nSTATUS:Writing image to device...\n";
    assert_eq!(
        status_lines(out),
        vec!["Starting flash operation".to_string(), "Writing image to device...".to_string()]
    );
}

#[test]
fn dd_run_outcomes() {
    assert_eq!(dd_outcome(true, Some(0)), Err("Flash operation cancelled by user".to_string()));
    assert_eq!(dd_outcome(false, Some(0)), Ok(()));
    assert_eq!(dd_outcome(false, Some(1)), Err("Flash operation failed with exit code: Some(1)".to_string()));
    assert_eq!(dd_outcome(false, Some(-2)), Err("Flash operation failed with exit code: Some(-2)".to_string()));
    assert_eq!(dd_outcome(false, None), Err("Flash operation failed with exit code: None".to_string()));
}

#[test]
fn image_size_comes_from_metadata_or_names_the_failure() {
    assert_eq!(image_size_from_metadata(Ok(4096)), Ok(4096));
    assert_eq!(
        image_size_from_metadata(Err("No such file or directory (os error 2)".to_string())),
        Err("Cannot read image file: No such file or directory (os error 2)".to_string())
    );
}

#[test]
fn cancellation_wins_over_the_script_state() {
    assert_eq!(watch_step(true, ChildPoll::Running), WatchAction::Cancel);
    assert_eq!(watch_step(true, ChildPoll::Exited), WatchAction::Cancel);
    assert_eq!(watch_step(true, ChildPoll::Failed("x".to_string())), WatchAction::Cancel);
}

#[test]
fn watching_collects_an_exited_script_and_forwards_a_running_one() {
    assert_eq!(watch_step(false, ChildPoll::Exited), WatchAction::Collect);
    assert_eq!(watch_step(false, ChildPoll::Running), WatchAction::Forward);
    assert_eq!(
        watch_step(false, ChildPoll::Failed("Interrupted".to_string())),
        WatchAction::Abort("Error checking process status: Interrupted".to_string())
    );
}

#[test]
fn updates_are_dropped_once_cancelled() {
    assert!(forward_update(false));
    assert!(!forward_update(true));
}
