use flashkraft::flash_helper::{
    find_mounted_partitions, hex_string, io_failure_message, is_partition_name_of, is_partition_of, next_read_len, open_failure_message,
    progress_due, real_uid, partition_node_verdict, reject_partition_node, set_real_uid, validate_inputs, verification_verdict,
    FlashStage, HashState, IoStep, PrefixHasher, OpenFailure, RealUid, pipeline_step, step_outcome, PipelineAction, StepOutcome,
};

// ── set_real_uid ────────────────────────────────────────────────────────

#[test]
fn test_set_real_uid_stores_value() {
    let mut slot = RealUid::new();
    set_real_uid(&mut slot, 1000);
    assert_eq!(slot.uid, Some(1000));
    // Only the first recording counts.
    set_real_uid(&mut slot, 0);
    assert_eq!(real_uid(&slot, 42), 1000);
    assert_eq!(real_uid(&RealUid::new(), 42), 42);
}

// ── is_partition_of ─────────────────────────────────────────────────────

#[test]
fn test_is_partition_of_sda() {
    assert!(is_partition_of("/dev/sda1", "sda"));
    assert!(is_partition_of("/dev/sda2", "sda"));
    assert!(!is_partition_of("/dev/sdb1", "sda"));
    assert!(!is_partition_of("/dev/sda", "sda"));
}

#[test]
fn test_is_partition_of_nvme() {
    assert!(is_partition_of("/dev/nvme0n1p1", "nvme0n1"));
    assert!(is_partition_of("/dev/nvme0n1p2", "nvme0n1"));
    assert!(!is_partition_of("/dev/nvme0n1", "nvme0n1"));
}

#[test]
fn test_is_partition_of_mmcblk() {
    assert!(is_partition_of("/dev/mmcblk0p1", "mmcblk0"));
    assert!(!is_partition_of("/dev/mmcblk0", "mmcblk0"));
}

#[test]
fn test_is_partition_of_no_false_prefix_match() {
    assert!(!is_partition_of("/dev/sda1", "sd"));
}

#[test]
fn is_partition_of_bare_p_is_not_a_partition() {
    assert!(!is_partition_of("/dev/nvme0n1p", "nvme0n1"));
}

// ── reject_partition_node ───────────────────────────────────────────────

#[test]
fn test_reject_partition_node_sda1() {
    let result = reject_partition_node("/dev/sda1");
    assert!(result.is_err());
    assert!(result.unwrap_err().contains("Refusing"));
}

#[test]
fn test_reject_partition_node_nvme() {
    let result = reject_partition_node("/dev/nvme0n1p1");
    assert!(result.is_err());
    assert!(result.unwrap_err().contains("Refusing"));
}

#[test]
fn test_reject_partition_node_accepts_whole_disk() {
    let result = reject_partition_node("/dev/sdb");
    assert!(result.is_ok(), "whole-disk node should not be rejected");
}

#[test]
fn reject_partition_node_names_the_whole_disk() {
    assert_eq!(
        reject_partition_node("/dev/sdb1").unwrap_err(),
        "Refusing to write to partition node '/dev/sdb1'. \
         Select the whole-disk device (e.g. /dev/sdb) instead."
    );
    assert!(reject_partition_node("/dev/nvme0n1p1")
        .unwrap_err()
        .contains("(e.g. /dev/nvme0n1) instead"));
    assert!(reject_partition_node("/dev/mmcblk0p2")
        .unwrap_err()
        .contains("(e.g. /dev/mmcblk0) instead"));
}

#[test]
fn whole_disk_nvme_and_sd_card_nodes_are_accepted() {
    assert!(reject_partition_node("/dev/nvme0n1").is_ok());
    assert!(reject_partition_node("/dev/mmcblk0").is_ok());
    assert!(reject_partition_node("/dev/mmcblk0p1").is_err());
    assert!(partition_node_verdict("/dev/sdc3", "sdc3").is_err());
    assert!(partition_node_verdict("/dev/nvme1n2", "nvme1n2").is_ok());
    assert!(partition_node_verdict("/dev/sdc", "sdc").is_ok());
}

#[test]
fn reject_partition_node_accepts_digit_only_and_loop_like_names() {
    assert!(reject_partition_node("/dev/123").is_ok());
    assert!(reject_partition_node("/tmp/image.bin").is_ok());
}

// ── find_mounted_partitions ─────────────────────────────────────────────

#[test]
fn test_find_mounted_partitions_parses_proc_mounts_format() {
    let mounts = "/dev/sda1 / ext4 rw 0 0\n\
                  /dev/sdb1 /media/usb vfat rw 0 0\n\
                  /dev/sdb2 /media/usb2 vfat rw 0 0\n\
                  /dev/sdbx /media/x vfat rw 0 0\n\
                  tmpfs /tmp tmpfs rw 0 0\n\
                  /dev/sdb /media/whole vfat rw 0 0\n";
    let result = find_mounted_partitions(mounts, "sdb", "/dev/sdb");
    assert_eq!(result, vec!["/dev/sdb1", "/dev/sdb2", "/dev/sdb"]);
}

#[test]
fn find_mounted_partitions_empty_text() {
    assert!(find_mounted_partitions("", "sda", "/dev/sda").is_empty());
}

// ── pipeline validation ─────────────────────────────────────────────────

#[test]
fn test_pipeline_rejects_missing_image() {
    let err = validate_inputs("/nonexistent/image.iso", "/dev/null", false, true, Ok(1)).unwrap_err();
    assert!(err.contains("Image file not found"), "err={err:?}");
}

#[test]
fn test_pipeline_rejects_empty_image() {
    let err = validate_inputs("/tmp/fk_empty.img", "/dev/null", true, true, Ok(0)).unwrap_err();
    assert!(err.contains("empty"), "err={err:?}");
}

#[test]
fn test_pipeline_rejects_missing_device() {
    let err = validate_inputs("/tmp/img.bin", "/nonexistent/device", true, false, Ok(1024))
        .unwrap_err();
    assert!(err.contains("Target device not found"), "err={err:?}");
}

#[test]
fn validate_inputs_reports_stat_error_and_size() {
    let err = validate_inputs("/tmp/i", "/dev/null", true, true, Err("boom".to_string())).unwrap_err();
    assert_eq!(err, "Cannot stat image: boom");
    assert_eq!(validate_inputs("/tmp/i", "/dev/sdb", true, true, Ok(4096)), Ok(4096));
    assert!(validate_inputs("/tmp/i", "/dev/sdb1", true, true, Ok(4096))
        .unwrap_err()
        .starts_with("Refusing"));
}

#[test]
fn open_failure_messages() {
    let m = open_failure_message("/dev/sdb", &OpenFailure::PermissionDenied, false);
    assert!(m.starts_with("Permission denied opening '/dev/sdb'.\n"));
    assert!(m.contains("sudo chmod u+s"));
    let m = open_failure_message("/dev/sdb", &OpenFailure::PermissionDenied, true);
    assert!(m.contains("Even with setuid-root"));
    let m = open_failure_message("/dev/sdb", &OpenFailure::Busy, false);
    assert_eq!(
        m,
        "Device '/dev/sdb' is busy. Ensure all partitions are unmounted before flashing."
    );
    let m = open_failure_message("/dev/sdb", &OpenFailure::Other("nope".into()), false);
    assert_eq!(m, "Cannot open device '/dev/sdb' for writing: nope");
}

#[test]
fn progress_reports_are_throttled() {
    assert!(!progress_due(100, 10, 1000));
    assert!(progress_due(400, 10, 1000));
    assert!(progress_due(0, 1000, 1000));
}

// ── hashing ─────────────────────────────────────────────────────────────

#[test]
fn test_sha256_empty_read_is_hash_of_empty() {
    let h = HashState::new();
    assert_eq!(
        h.finish_hex(),
        "e3b0c44298fc1c149afbf4c8996fb92427ae41e4649b934ca495991b7852b855"
    );
}

#[test]
fn sha256_of_chunks_equals_sha256_of_whole() {
    let mut a = HashState::new();
    a.update(b"hello ");
    a.update(b"world");
    let mut b = HashState::new();
    b.update(b"hello world");
    let ha = a.finish_hex();
    assert_eq!(ha, b.finish_hex());
    assert_eq!(
        ha,
        "b94d27b9934d3e08a52e52d7da7dabfac484efe37a5380ee9088f7ace2efcde9"
    );
}

#[test]
fn hex_string_is_lower_case_two_digits_per_byte() {
    assert_eq!(hex_string(&vec![0x00, 0x0f, 0xa0, 0xff]), "000fa0ff");
    assert_eq!(hex_string(&vec![]), "");
}

fn hash_prefix_in_chunks(content: &[u8], limit: u64, buf_len: usize) -> (String, usize) {
    let mut hasher = PrefixHasher::new(limit);
    let mut pos = 0usize;
    let mut reads = 0usize;
    while hasher.wants_more() {
        let want = hasher.next_len(buf_len);
        let end = (pos + want).min(content.len());
        hasher.feed(&content[pos..end]);
        pos = end;
        reads += 1;
    }
    (hasher.finish_hex(), reads)
}

#[test]
fn prefix_hasher_hashes_only_the_first_limit_bytes() {
    let mut whole = HashState::new();
    whole.update(b"hello");
    let (digest, reads) = hash_prefix_in_chunks(b"hello world", 5, 3);
    assert_eq!(digest, whole.finish_hex());
    assert_eq!(reads, 2);
}

#[test]
fn prefix_hasher_stops_at_the_end_of_a_short_stream() {
    let (digest, reads) = hash_prefix_in_chunks(b"hello world", 100, 4);
    assert_eq!(digest, "b94d27b9934d3e08a52e52d7da7dabfac484efe37a5380ee9088f7ace2efcde9");
    assert_eq!(reads, 4);
}

#[test]
fn prefix_hasher_with_zero_limit_reads_nothing() {
    let (digest, reads) = hash_prefix_in_chunks(b"abc", 0, 4);
    assert_eq!(digest, "e3b0c44298fc1c149afbf4c8996fb92427ae41e4649b934ca495991b7852b855");
    assert_eq!(reads, 0);
}

#[test]
fn next_read_len_is_bounded_by_buffer_and_remaining() {
    assert_eq!(next_read_len(10, 4096), 10);
    assert_eq!(next_read_len(10_000, 4096), 4096);
    assert_eq!(next_read_len(0, 4096), 0);
}

#[test]
fn test_verify_matching_files() {
    assert_eq!(
        verification_verdict("abc", "abc"),
        Ok("Verification passed (abc)".to_string())
    );
}

#[test]
fn test_verify_mismatch_returns_error() {
    let err = verification_verdict("aaa", "bbb").unwrap_err();
    assert!(err.contains("Verification failed"));
    assert!(err.contains("image=aaa"));
    assert!(err.contains("device=bbb"));
}

// ── FlashStage Display ──────────────────────────────────────────────────

#[test]
fn flash_helper_test_flash_stage_display() {
    assert!(FlashStage::Writing.to_string().contains("Writing"));
    assert!(FlashStage::Syncing.to_string().contains("Flushing"));
    assert!(FlashStage::Done.to_string().contains("complete"));
    assert!(FlashStage::Failed("oops".into())
        .to_string()
        .contains("oops"));
}

#[test]
fn partition_names_of_a_device() {
    assert!(is_partition_name_of("sdb1", "sdb"));
    assert!(is_partition_name_of("nvme0n1p1", "nvme0n1"));
    assert!(!is_partition_name_of("nvme0n1p", "nvme0n1"));
    assert!(!is_partition_name_of("sdb", "sdb"));
    assert!(!is_partition_name_of("sdbx", "sdb"));
}

#[test]
fn pipeline_runs_its_stages_in_order() {
    use_pipeline();
}

fn use_pipeline() {
    let mut stage = FlashStage::Starting;
    let mut seen = Vec::new();
    loop {
        match pipeline_step(stage.clone(), StepOutcome::Succeeded) {
            PipelineAction::Enter(next) => {
                seen.push(next.clone());
                stage = next;
            }
            PipelineAction::Finish => break,
            PipelineAction::Abort(e) => panic!("unexpected abort: {e}"),
        }
    }
    assert_eq!(
        seen,
        vec![
            FlashStage::Unmounting,
            FlashStage::Writing,
            FlashStage::Syncing,
            FlashStage::Rereading,
            FlashStage::Verifying,
        ]
    );
}

#[test]
fn failed_verification_aborts_the_pipeline() {
    let verdict = verification_verdict("aaa", "bbb");
    match pipeline_step(FlashStage::Verifying, step_outcome(verdict)) {
        PipelineAction::Abort(e) => assert!(e.starts_with("Verification failed")),
        _ => panic!("a mismatch must not finish the flash"),
    }
    match pipeline_step(FlashStage::Verifying, step_outcome(verification_verdict("abc", "abc"))) {
        PipelineAction::Finish => {}
        _ => panic!("matching digests finish the flash"),
    }
    match pipeline_step(FlashStage::Writing, step_outcome::<()>(Err("Write error on device: EIO".into()))) {
        PipelineAction::Abort(e) => assert_eq!(e, "Write error on device: EIO"),
        _ => panic!("a failed write stops the pipeline"),
    }
}

#[test]
fn io_failure_messages_name_the_step() {
    assert_eq!(io_failure_message(IoStep::OpenImage, "/img", "gone"), "Cannot open image: gone");
    assert_eq!(io_failure_message(IoStep::ReadImage, "/img", "bad"), "Read error on image: bad");
    assert_eq!(io_failure_message(IoStep::WriteDevice, "/dev/sdb", "EIO"), "Write error on device: EIO");
    assert_eq!(io_failure_message(IoStep::Flush, "/dev/sdb", "x"), "Buffer flush error: x");
    assert_eq!(io_failure_message(IoStep::Unbuffer, "/dev/sdb", "x"), "BufWriter error: x");
    assert_eq!(
        io_failure_message(IoStep::Fsync, "/dev/sdb", "Input/output error (os error 5)"),
        "fsync failed on '/dev/sdb': Input/output error (os error 5) — data may not have been fully written to the device"
    );
    assert_eq!(
        io_failure_message(IoStep::OpenForHash, "/dev/sdb", "denied"),
        "Cannot open /dev/sdb for hashing: denied"
    );
    assert_eq!(
        io_failure_message(IoStep::ReadForHash, "/img", "short"),
        "Read error while hashing /img: short"
    );
}
