use flashkraft::flash_writer::{
    error_line, log_line, parse_dd_progress, parse_script_line, progress_line, size_line, speed_unit,
    speed_value_text, stage_line, FlashStage, ScriptLine, SpeedUnit,
};

/// MB/s for a value and unit token, as the user interface computes it from
/// the library's reading of the tokens.
fn parse_speed_to_mb_s(value_str: &str, unit_str: &str) -> f32 {
    let value: f32 = match speed_value_text(value_str) {
        Some(t) => t.parse().expect("accepted by the f32 grammar"),
        None => return 0.0,
    };
    match speed_unit(unit_str) {
        SpeedUnit::Kilo => value / 1024.0,
        SpeedUnit::Mega => value,
        SpeedUnit::Giga => value * 1024.0,
        SpeedUnit::Tera => value * 1024.0 * 1024.0,
        SpeedUnit::Bytes => value / (1024.0 * 1024.0),
        SpeedUnit::Unknown => 0.0,
    }
}

fn progress_of(bytes: u64, total: u64) -> f32 {
    (bytes as f64 / total as f64).clamp(0.0, 1.0) as f32
}

fn speed_of(line: &ScriptLine) -> f32 {
    match line {
        ScriptLine::Progress(_, s) => s.parse().unwrap(),
        ScriptLine::DdProgress(_, v, u) => parse_speed_to_mb_s(v, u),
        _ => panic!("no speed in {line:?}"),
    }
}

// ── parse_speed_to_mb_s ─────────────────────────────────────────────────

#[test]
fn test_parse_speed_mb_s() {
    let speed = parse_speed_to_mb_s("35.6", "MB/s");
    assert!((speed - 35.6).abs() < 0.01, "got {speed}");
}

#[test]
fn test_parse_speed_kb_s() {
    let speed = parse_speed_to_mb_s("1024", "kB/s");
    assert!((speed - 1.0).abs() < 0.01, "got {speed}");
}

#[test]
fn test_parse_speed_gb_s() {
    let speed = parse_speed_to_mb_s("1", "GB/s");
    assert!((speed - 1024.0).abs() < 0.01, "got {speed}");
}

#[test]
fn test_parse_speed_mib_s() {
    let speed = parse_speed_to_mb_s("10.0", "MiB/s");
    assert!((speed - 10.0).abs() < 0.01, "got {speed}");
}

#[test]
fn test_parse_speed_kib_s() {
    let speed = parse_speed_to_mb_s("512", "kiB/s");
    assert!((speed - 0.5).abs() < 0.01, "got {speed}");
}

#[test]
fn test_parse_speed_bytes_per_s() {
    let speed = parse_speed_to_mb_s("1048576", "B/s");
    assert!((speed - 1.0).abs() < 0.01, "got {speed}");
}

#[test]
fn test_parse_speed_invalid() {
    assert_eq!(parse_speed_to_mb_s("abc", "MB/s"), 0.0);
    assert_eq!(parse_speed_to_mb_s("10", ""), 0.0);
    assert_eq!(parse_speed_to_mb_s("", "MB/s"), 0.0);
}

#[test]
fn test_parse_speed_comma_decimal() {
    let speed = parse_speed_to_mb_s("35,6", "MB/s");
    assert!((speed - 35.6).abs() < 0.01, "got {speed}");
}

#[test]
fn speed_units_and_values() {
    assert_eq!(speed_unit(" TiB/s "), SpeedUnit::Tera);
    assert_eq!(speed_unit("Mbps"), SpeedUnit::Mega);
    assert_eq!(speed_unit("parsecs"), SpeedUnit::Unknown);
    assert_eq!(speed_value_text(" 1e3 "), Some("1e3".to_string()));
    assert_eq!(speed_value_text("-inf"), Some("-inf".to_string()));
    assert_eq!(speed_value_text("."), None);
    assert_eq!(speed_value_text("1.2.3"), None);
}

// ── parse_dd_progress ───────────────────────────────────────────────────

const IMAGE_1G: u64 = 1_073_741_824; // 1 GiB

#[test]
fn test_parse_dd_progress_mb_s() {
    let line = "1073741824 bytes (1.1 GB, 1.0 GiB) copied, 30.2 s, 35.6 MB/s";
    let p = parse_dd_progress(line, IMAGE_1G).expect("should parse");
    assert_eq!(p.bytes_written, IMAGE_1G);
    let speed = parse_speed_to_mb_s(&p.speed_value, &p.speed_unit);
    assert!((speed - 35.6).abs() < 0.1, "speed={}", speed);
    let progress = progress_of(p.bytes_written, p.total_bytes);
    assert!((progress - 1.0).abs() < 0.001, "progress={}", progress);
}

#[test]
fn test_parse_dd_progress_half() {
    let half = IMAGE_1G / 2;
    let line = format!("{half} bytes (537 MB, 512 MiB) copied, 15.1 s, 33.0 MB/s");
    let p = parse_dd_progress(&line, IMAGE_1G).expect("should parse");
    assert_eq!(p.bytes_written, half);
    let progress = progress_of(p.bytes_written, p.total_bytes);
    assert!((progress - 0.5).abs() < 0.001, "progress={}", progress);
    let speed = parse_speed_to_mb_s(&p.speed_value, &p.speed_unit);
    assert!((speed - 33.0).abs() < 0.1, "speed={}", speed);
}

#[test]
fn test_parse_dd_progress_kb_s() {
    let line = "4096 bytes (4.1 kB, 4.0 KiB) copied, 0.001 s, 3.5 MB/s";
    let p = parse_dd_progress(line, IMAGE_1G).expect("should parse");
    assert_eq!(p.bytes_written, 4096);
    let speed = parse_speed_to_mb_s(&p.speed_value, &p.speed_unit);
    assert!((speed - 3.5).abs() < 0.1, "speed={}", speed);
}

#[test]
fn test_parse_dd_progress_slow_kb_s() {
    let line = "4194304 bytes (4.2 MB, 4.0 MiB) copied, 8.4 s, 500 kB/s";
    let p = parse_dd_progress(line, IMAGE_1G).expect("should parse");
    let speed = parse_speed_to_mb_s(&p.speed_value, &p.speed_unit);
    assert!((speed - 500.0 / 1024.0).abs() < 0.01, "speed={}", speed);
}

#[test]
fn test_parse_dd_progress_not_a_progress_line() {
    assert!(parse_dd_progress("STAGE:WRITING", IMAGE_1G).is_none());
    assert!(parse_dd_progress("LOG:some message", IMAGE_1G).is_none());
    assert!(parse_dd_progress("", IMAGE_1G).is_none());
    assert!(parse_dd_progress("hello world", IMAGE_1G).is_none());
}

#[test]
fn test_parse_dd_progress_zero_image_size() {
    let line = "1073741824 bytes (1.1 GB, 1.0 GiB) copied, 30.2 s, 35.6 MB/s";
    assert!(parse_dd_progress(line, 0).is_none());
}

#[test]
fn test_parse_dd_progress_clamps_to_one() {
    let line = "2000000000 bytes (2.0 GB, 1.9 GiB) copied, 30.2 s, 35.6 MB/s";
    let p = parse_dd_progress(line, IMAGE_1G).expect("should parse");
    let progress = progress_of(p.bytes_written, p.total_bytes);
    assert!(progress <= 1.0, "progress={}", progress);
    assert!(progress >= 0.0, "progress={}", progress);
}

// ── parse_script_line: PROGRESS ─────────────────────────────────────────

#[test]
fn test_parse_script_line_progress_mb_s() {
    match parse_script_line("PROGRESS:104857600:38.50") {
        ScriptLine::Progress(bytes, speed) => {
            assert_eq!(bytes, 104_857_600);
            let speed: f32 = speed.parse().unwrap();
            assert!((speed - 38.5).abs() < 0.01, "speed={speed}");
        }
        other => panic!("expected Progress, got {other:?}"),
    }
}

#[test]
fn test_parse_script_line_progress_at_start() {
    match parse_script_line("PROGRESS:4194304:5.10") {
        ScriptLine::Progress(bytes, speed) => {
            assert_eq!(bytes, 4_194_304);
            let speed: f32 = speed.parse().unwrap();
            assert!((speed - 5.1).abs() < 0.01, "speed={speed}");
        }
        other => panic!("expected Progress, got {other:?}"),
    }
}

#[test]
fn test_parse_script_line_progress_zero_speed() {
    match parse_script_line("PROGRESS:1024:0.00") {
        ScriptLine::Progress(bytes, speed) => {
            assert_eq!(bytes, 1024);
            let speed: f32 = speed.parse().unwrap();
            assert_eq!(speed, 0.0);
        }
        other => panic!("expected Progress, got {other:?}"),
    }
}

#[test]
fn test_parse_script_line_progress_large_image() {
    match parse_script_line("PROGRESS:7948206080:42.00") {
        ScriptLine::Progress(bytes, speed) => {
            assert_eq!(bytes, 7_948_206_080);
            let speed: f32 = speed.parse().unwrap();
            assert!((speed - 42.0).abs() < 0.01, "speed={speed}");
        }
        other => panic!("expected Progress, got {other:?}"),
    }
}

#[test]
fn test_parse_script_line_progress_malformed_falls_through() {
    match parse_script_line("PROGRESS:1234567") {
        ScriptLine::Unknown(_) => {}
        other => panic!("expected Unknown for malformed PROGRESS, got {other:?}"),
    }
}

#[test]
fn parse_script_line_progress_bad_speed_falls_through() {
    assert_eq!(
        parse_script_line("PROGRESS:10:fast"),
        ScriptLine::Unknown("PROGRESS:10:fast".to_string())
    );
    assert_eq!(
        parse_script_line("PROGRESS: 10 : 2.5 "),
        ScriptLine::Progress(10, "2.5".to_string())
    );
}

// ── parse_script_line: STAGE ────────────────────────────────────────────

#[test]
fn test_parse_script_line_stage_writing() {
    assert_eq!(
        parse_script_line("STAGE:WRITING"),
        ScriptLine::Stage(FlashStage::Writing)
    );
}

#[test]
fn test_parse_script_line_all_stages() {
    let cases = vec![
        ("STAGE:UNMOUNTING", FlashStage::Unmounting),
        ("STAGE:WRITING", FlashStage::Writing),
        ("STAGE:SYNCING", FlashStage::Syncing),
        ("STAGE:REREADING", FlashStage::Rereading),
        ("STAGE:VERIFYING", FlashStage::Verifying),
        ("STAGE:DONE", FlashStage::Done),
    ];
    for (input, expected) in cases {
        assert_eq!(
            parse_script_line(input),
            ScriptLine::Stage(expected.clone()),
            "input={input}"
        );
    }
}

#[test]
fn parse_script_line_unknown_stage_is_failed() {
    assert_eq!(
        parse_script_line("STAGE: EXPLODED "),
        ScriptLine::Stage(FlashStage::Failed("EXPLODED".to_string()))
    );
}

#[test]
fn test_parse_script_line_size() {
    assert_eq!(
        parse_script_line("SIZE:1073741824"),
        ScriptLine::Size(1_073_741_824)
    );
}

#[test]
fn test_parse_script_line_dd_exit_zero() {
    assert_eq!(parse_script_line("DD_EXIT:0"), ScriptLine::DdExit(0));
}

#[test]
fn test_parse_script_line_dd_exit_nonzero() {
    assert_eq!(parse_script_line("DD_EXIT:1"), ScriptLine::DdExit(1));
}

#[test]
fn parse_script_line_dd_exit_negative_and_bounds() {
    assert_eq!(parse_script_line("DD_EXIT:-2147483648"), ScriptLine::DdExit(i32::MIN));
    assert_eq!(
        parse_script_line("DD_EXIT:2147483648"),
        ScriptLine::Unknown("DD_EXIT:2147483648".to_string())
    );
    assert_eq!(
        parse_script_line("SIZE:18446744073709551616"),
        ScriptLine::Unknown("SIZE:18446744073709551616".to_string())
    );
}

#[test]
fn test_parse_script_line_error() {
    assert_eq!(
        parse_script_line("ERROR:Device not found: /dev/sdb"),
        ScriptLine::Error("Device not found: /dev/sdb".to_string())
    );
}

#[test]
fn test_parse_script_line_log() {
    assert_eq!(
        parse_script_line("LOG:Unmounting /dev/sdb1"),
        ScriptLine::Log("Unmounting /dev/sdb1".to_string())
    );
}

#[test]
fn test_parse_script_line_dd_progress() {
    let line = "536870912 bytes (537 MB, 512 MiB) copied, 15.1 s, 33.0 MB/s";
    let parsed = parse_script_line(line);
    match &parsed {
        ScriptLine::DdProgress(bytes, _, _) => {
            assert_eq!(*bytes, 536_870_912);
            let speed = speed_of(&parsed);
            assert!((speed - 33.0).abs() < 0.1, "speed={speed}");
        }
        other => panic!("expected DdProgress, got {other:?}"),
    }
}

#[test]
fn test_progress_takes_priority_over_unknown() {
    let line = "PROGRESS:536870912:33.00";
    assert!(
        matches!(parse_script_line(line), ScriptLine::Progress(_, _)),
        "PROGRESS: line must parse as ScriptLine::Progress"
    );
}

#[test]
fn test_parse_script_line_unknown() {
    assert_eq!(
        parse_script_line("some random output"),
        ScriptLine::Unknown("some random output".to_string())
    );
}

#[test]
fn test_parse_script_line_trims_whitespace() {
    assert_eq!(
        parse_script_line("  STAGE:DONE  "),
        ScriptLine::Stage(FlashStage::Done)
    );
}

// ── FlashStage Display ──────────────────────────────────────────────────

#[test]
fn flash_writer_test_flash_stage_display() {
    assert_eq!(FlashStage::Done.to_string(), "Flash complete!");
    assert!(FlashStage::Writing.to_string().contains("Writing"));
    assert!(FlashStage::Verifying.to_string().contains("Verif"));
    let failed = FlashStage::Failed("oops".to_string());
    assert!(failed.to_string().contains("oops"));
}

// ── Integration: full script output simulation ──────────────────────────

#[test]
fn test_full_script_output_simulation() {
    let image_size: u64 = 1_073_741_824;

    let simulated_output = vec![
        "STAGE:UNMOUNTING",
        "LOG:Unmounting /dev/sdb1",
        "SIZE:1073741824",
        "STAGE:WRITING",
        "LOG:Writing 1073741824 bytes from /path/to/image.iso → /dev/sdb",
        "PROGRESS:536870912:33.00",
        "PROGRESS:1073741824:35.60",
        "STAGE:SYNCING",
        "LOG:Kernel write-back caches flushed",
        "STAGE:REREADING",
        "LOG:Kernel partition table refreshed",
        "STAGE:VERIFYING",
        "LOG:Computing SHA-256 of source image",
        "LOG:Reading back 1073741824 bytes from device for verification",
        "LOG:Verification passed (abc123)",
        "STAGE:DONE",
    ];

    let mut stages_seen = Vec::new();
    let mut last_bytes = 0u64;
    let mut total_size_seen = 0u64;

    for line in simulated_output {
        let parsed = parse_script_line(line);
        match &parsed {
            ScriptLine::Stage(s) => stages_seen.push(s.clone()),
            ScriptLine::Size(n) => total_size_seen = *n,
            ScriptLine::Progress(bytes, _) => {
                assert!(*bytes > 0, "bytes should be positive");
                assert!(speed_of(&parsed) > 0.0, "speed should be positive");
                last_bytes = *bytes;
            }
            ScriptLine::Error(e) => panic!("unexpected error: {e}"),
            ScriptLine::Log(_)
            | ScriptLine::Unknown(_)
            | ScriptLine::DdProgress(_, _, _)
            | ScriptLine::DdExit(_) => {}
        }
    }

    assert_eq!(total_size_seen, image_size);
    assert_eq!(last_bytes, image_size);

    let expected_stages = vec![
        FlashStage::Unmounting,
        FlashStage::Writing,
        FlashStage::Syncing,
        FlashStage::Rereading,
        FlashStage::Verifying,
        FlashStage::Done,
    ];
    assert_eq!(stages_seen, expected_stages);
}

#[test]
fn test_failed_flash_output_simulation() {
    let simulated_output = vec![
        "STAGE:UNMOUNTING",
        "LOG:No mounted partitions found",
        "SIZE:1073741824",
        "STAGE:WRITING",
        "LOG:Writing 1073741824 bytes from /path/image.iso → /dev/sdb",
        "PROGRESS:4194304:3.80",
        "ERROR:Write error on device: No space left on device",
    ];

    let mut got_error = false;
    let mut error_msg = String::new();
    let mut last_progress_bytes = 0u64;

    for line in simulated_output {
        match parse_script_line(line) {
            ScriptLine::Progress(bytes, _) => last_progress_bytes = bytes,
            ScriptLine::Error(msg) => {
                got_error = true;
                error_msg = msg;
            }
            _ => {}
        }
    }

    assert_eq!(last_progress_bytes, 4_194_304);
    assert!(got_error, "should detect the ERROR: line");
    assert!(error_msg.contains("Write error"), "msg={error_msg}");
}

#[test]
fn test_verification_failure_simulation() {
    let simulated_output = vec![
        "SIZE:1073741824",
        "STAGE:WRITING",
        "PROGRESS:1073741824:35.60",
        "STAGE:SYNCING",
        "STAGE:REREADING",
        "STAGE:VERIFYING",
        "ERROR:Verification failed — data mismatch (image=aaa device=bbb)",
    ];

    let mut got_error = false;
    let mut error_msg = String::new();

    for line in simulated_output {
        if let ScriptLine::Error(msg) = parse_script_line(line) {
            got_error = true;
            error_msg = msg;
        }
    }

    assert!(got_error);
    assert!(error_msg.contains("Verification failed"));
    assert!(error_msg.contains("image=aaa"));
    assert!(error_msg.contains("device=bbb"));
}

#[test]
fn written_lines_are_read_back() {
    assert_eq!(size_line(7_948_206_080), "SIZE:7948206080");
    assert_eq!(parse_script_line(&size_line(7_948_206_080)), ScriptLine::Size(7_948_206_080));
    assert_eq!(stage_line(&FlashStage::Writing), Some("STAGE:WRITING".to_string()));
    assert_eq!(stage_line(&FlashStage::Starting), None);
    for s in [
        FlashStage::Unmounting,
        FlashStage::Writing,
        FlashStage::Syncing,
        FlashStage::Rereading,
        FlashStage::Verifying,
        FlashStage::Done,
    ] {
        let line = stage_line(&s).unwrap();
        assert_eq!(parse_script_line(&line), ScriptLine::Stage(s));
    }
    let p = progress_line(4_194_304, "35.60");
    assert_eq!(p, "PROGRESS:4194304:35.60");
    assert_eq!(parse_script_line(&p), ScriptLine::Progress(4_194_304, "35.60".to_string()));
    assert_eq!(parse_script_line(&log_line("Unmounting /dev/sdb1")), ScriptLine::Log("Unmounting /dev/sdb1".to_string()));
    assert_eq!(parse_script_line(&error_line("disk full")), ScriptLine::Error("disk full".to_string()));
}

#[test]
fn padded_progress_lines_and_units() {
    assert_eq!(
        parse_script_line(" \t PROGRESS:4096:12.5 \r"),
        ScriptLine::Progress(4096, "12.5".to_string())
    );
    assert_eq!(speed_unit("  MB/s "), speed_unit("MB/s"));
    assert_eq!(speed_unit("\tGiB/s"), SpeedUnit::Giga);
}
