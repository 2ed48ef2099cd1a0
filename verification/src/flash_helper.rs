//! The decisions of the privileged flash pipeline.
//!
//! The pipeline itself (opening the block device, unmounting, writing in
//! blocks, `fsync`, `BLKRRPART`) is operating-system work done by the
//! caller.  This module holds what it decides: which inputs are refused and
//! with which message, which mounted partitions belong to the target, when a
//! progress report is due, how much to read next while hashing, the SHA-256
//! digest itself (through the `sha2` crate) and the verification verdict.
use vstd::prelude::*;
use crate::external::{file_name, path_file_name};
use crate::text::{
    chars_of, chars_of_string, concat, eq_chars, is_alpha, is_digit,
    lines, lines_exec, slice_chars, split_ws, starts_with, starts_with_exec, string_of, views,
    words,
};

pub use crate::flash_writer::{FlashStage, StageModel};

verus! {

// ---------------------------------------------------------------------------
// Device names
// ---------------------------------------------------------------------------

/// The file name of a path, or the empty text when it has none
/// (`file_name().unwrap_or_default()`).
pub open spec fn base_name(p: Seq<char>) -> Seq<char> {
    match path_file_name(p) {
        Some(n) => n,
        None => seq![],
    }
}

fn base_name_exec(p: &str) -> (r: Vec<char>)
    ensures
        r@ == base_name(p@),
{
    match file_name(p) {
        Some(n) => chars_of_string(&n),
        None => {
            let v: Vec<char> = Vec::new();
            assert(v@ =~= seq![]);
            v
        },
    }
}

/// `base` names a partition of the device `device_name`: it extends the
/// name by a digit, or by `p` and at least one more character.
pub open spec fn partition_base_of(base: Seq<char>, device_name: Seq<char>) -> bool {
    starts_with(base, device_name) && base.len() > device_name.len() && (is_digit(
        base[device_name.len() as int],
    ) || (base[device_name.len() as int] == 'p' && base.len() > device_name.len() + 1))
}

/// Whether a device whose file name is `base` is a partition of
/// `device_name` (see `partition_base_of`).
pub fn is_partition_name_of(base: &str, device_name: &str) -> (r: bool)
    ensures
        r == partition_base_of(base@, device_name@),
{
    let base = chars_of(base);
    let name = chars_of(device_name);
    if !starts_with_exec(&base, &name) {
        return false;
    }
    if base.len() <= name.len() {
        return false;
    }
    let first = base[name.len()];
    ('0' <= first && first <= '9') || (first == 'p' && base.len() > name.len() + 1)
}

/// Whether the device at path `dev` is a partition of `device_name`.
pub fn is_partition_of(dev: &str, device_name: &str) -> (r: bool)
    ensures
        r == partition_base_of(base_name(dev@), device_name@),
{
    let base = string_of(&base_name_exec(dev));
    is_partition_name_of(base.as_str(), device_name)
}

/// `s` without its trailing digits (`trim_end_matches` of ASCII digits).
pub open spec fn trim_trailing(s: Seq<char>) -> Seq<char>
    decreases s.len(),
{
    if s.len() > 0 && is_digit(s.last()) {
        trim_trailing(s.drop_last())
    } else {
        s
    }
}

fn trim_trailing_exec(s: &Vec<char>) -> (r: Vec<char>)
    ensures
        r@ == trim_trailing(s@),
{
    let mut n = s.len();
    assert(s@.take(n as int) =~= s@);
    while n > 0 && ('0' <= s[n - 1] && s[n - 1] <= '9')
        invariant
            n <= s.len(),
            trim_trailing(s@) == trim_trailing(s@.take(n as int)),
        decreases n,
    {
        assert(s@.take(n as int).drop_last() =~= s@.take(n - 1));
        n -= 1;
    }
    let r = slice_chars(s, 0, n);
    assert(r@ =~= s@.take(n as int));
    r
}

/// Every character is an ASCII letter.
pub open spec fn all_letters(s: Seq<char>) -> bool {
    forall|i: int| 0 <= i < s.len() ==> is_alpha(#[trigger] s[i])
}

/// The part before the trailing number is `…<digit>p`, as in `nvme0n1p` or
/// `mmcblk0p`.
pub open spec fn digit_p_stem(stem: Seq<char>) -> bool {
    stem.len() >= 2 && stem.last() == 'p' && is_digit(stem[stem.len() - 2])
}

/// A partition node's name: it ends in a number that is a partition
/// number, which it is after a `p` that follows a digit (`nvme0n1p1`,
/// `mmcblk0p2`), or after a stem made only of letters (`sdb1`).  The number
/// of an `mmcblk<k>` card and of an `nvme…n<k>` namespace names a whole
/// disk.
pub open spec fn is_partition_node_name(n: Seq<char>) -> bool {
    n.len() > 0 && is_digit(n.last()) && {
        let stem = trim_trailing(n);
        digit_p_stem(stem) || (stem.len() > 0 && all_letters(stem) && stem != "mmcblk"@)
    }
}

/// The whole disk a partition node belongs to: the name without its
/// partition number (and the `p` before it).
pub open spec fn whole_disk_name(n: Seq<char>) -> Seq<char> {
    let stem = trim_trailing(n);
    if digit_p_stem(stem) {
        stem.drop_last()
    } else {
        stem
    }
}

/// The refusal message for a partition node.
pub open spec fn partition_refusal(device_path: Seq<char>, name: Seq<char>) -> Seq<char> {
    "Refusing to write to partition node '"@ + device_path + "'. Select the whole-disk device (e.g. /dev/"@
        + whole_disk_name(name) + ") instead."@
}

fn letters_only(s: &Vec<char>) -> (r: bool)
    ensures
        r == all_letters(s@),
{
    let mut i: usize = 0;
    while i < s.len()
        invariant
            i <= s.len(),
            forall|j: int| 0 <= j < i ==> is_alpha(#[trigger] s@[j]),
        decreases s.len() - i,
    {
        if !crate::text::alpha(s[i]) {
            return false;
        }
        i += 1;
    }
    true
}

/// The verdict on a device path whose file name is `name`: refused, with a
/// message naming the whole disk, exactly when `name` is a partition node's
/// name.
pub fn partition_node_verdict(device_path: &str, name: &str) -> (r: Result<(), String>)
    ensures
        match r {
            Ok(()) => !is_partition_node_name(name@),
            Err(m) => is_partition_node_name(name@) && m@ == partition_refusal(device_path@, name@),
        },
{
    let n = chars_of(name);
    if n.len() == 0 || !('0' <= n[n.len() - 1] && n[n.len() - 1] <= '9') {
        return Ok(());
    }
    let stem = trim_trailing_exec(&n);
    let p_form = stem.len() >= 2 && stem[stem.len() - 1] == 'p' && '0' <= stem[stem.len() - 2] && stem[stem.len()
        - 2] <= '9';
    let is_partition = p_form || (stem.len() > 0 && letters_only(&stem) && !eq_chars(&stem, &chars_of("mmcblk")));
    if !is_partition {
        return Ok(());
    }
    let whole = if p_form {
        slice_chars(&stem, 0, stem.len() - 1)
    } else {
        stem
    };
    let m1 = concat(&chars_of("Refusing to write to partition node '"), &chars_of(device_path));
    let m2 = concat(&m1, &chars_of("'. Select the whole-disk device (e.g. /dev/"));
    let m3 = concat(&m2, &whole);
    let m4 = concat(&m3, &chars_of(") instead."));
    Err(string_of(&m4))
}

/// Refuse a device path that names a partition rather than a whole disk
/// (see `partition_node_verdict`).
pub fn reject_partition_node(device_path: &str) -> (r: Result<(), String>)
    ensures
        match r {
            Ok(()) => !is_partition_node_name(base_name(device_path@)),
            Err(m) => is_partition_node_name(base_name(device_path@)) && m@ == partition_refusal(
                device_path@,
                base_name(device_path@),
            ),
        },
{
    let name = string_of(&base_name_exec(device_path));
    partition_node_verdict(device_path, name.as_str())
}

// ---------------------------------------------------------------------------
// Mounted partitions
// ---------------------------------------------------------------------------

/// The mounted devices (first field of each line of `/proc/mounts`) that
/// are the target itself or one of its partitions, in order.
pub open spec fn mounted_of_lines(ls: Seq<Seq<char>>, device_name: Seq<char>, device_path: Seq<
    char,
>) -> Seq<Seq<char>>
    decreases ls.len(),
{
    if ls.len() == 0 {
        seq![]
    } else {
        let rest = mounted_of_lines(ls.drop_last(), device_name, device_path);
        let w = words(ls.last());
        if w.len() > 0 && (w[0] == device_path || partition_base_of(base_name(w[0]), device_name)) {
            rest.push(w[0])
        } else {
            rest
        }
    }
}

/// The partitions of the target device that `/proc/mounts` lists.
pub fn find_mounted_partitions(mounts: &str, device_name: &str, device_path: &str) -> (r: Vec<
    String,
>)
    ensures
        r@.map_values(|s: String| s@) == mounted_of_lines(lines(mounts@), device_name@, device_path@),
{
    let ls = lines_exec(&chars_of(mounts));
    let target = chars_of(device_path);
    let mut out: Vec<String> = Vec::new();
    let mut i: usize = 0;
    while i < ls.len()
        invariant
            i <= ls.len(),
            target@ == device_path@,
            views(ls@) == lines(mounts@),
            out@.map_values(|s: String| s@) == mounted_of_lines(
                views(ls@).take(i as int),
                device_name@,
                device_path@,
            ),
        decreases ls.len() - i,
    {
        assert(views(ls@).take(i + 1).drop_last() =~= views(ls@).take(i as int));
        assert(views(ls@).take(i + 1).last() == ls@[i as int]@);
        let w = split_ws(&ls[i]);
        if w.len() > 0 {
            assert(views(w@)[0] == w@[0]@);
            let dev = string_of(&w[0]);
            if eq_chars(&w[0], &target) || is_partition_of(dev.as_str(), device_name) {
                let ghost o0 = out@.map_values(|s: String| s@);
                out.push(dev);
                assert(out@.map_values(|s: String| s@) =~= o0.push(w@[0]@));
            }
        }
        i += 1;
    }
    assert(views(ls@).take(ls.len() as int) =~= views(ls@));
    out
}

// ---------------------------------------------------------------------------
// Input validation
// ---------------------------------------------------------------------------

/// What the pipeline answers before touching the device: the image must be
/// a file, the device must exist, must not be a partition node, and the
/// image must have a readable, non-zero size.  `Ok` carries the size.
pub open spec fn validation(
    image_path: Seq<char>,
    device_path: Seq<char>,
    image_is_file: bool,
    device_exists: bool,
    image_len: Result<u64, Seq<char>>,
) -> Result<u64, Seq<char>> {
    if !image_is_file {
        Err("Image file not found: "@ + image_path)
    } else if !device_exists {
        Err("Target device not found: "@ + device_path)
    } else if is_partition_node_name(base_name(device_path)) {
        Err(partition_refusal(device_path, base_name(device_path)))
    } else {
        match image_len {
            Err(e) => Err("Cannot stat image: "@ + e),
            Ok(n) => if n == 0 {
                Err("Image file is empty"@)
            } else {
                Ok(n)
            },
        }
    }
}

pub open spec fn result_view(r: Result<u64, String>) -> Result<u64, Seq<char>> {
    match r {
        Ok(n) => Ok(n),
        Err(e) => Err(e@),
    }
}

/// Check the pipeline's inputs, given what the file system reported about
/// them (`image_len` is the image's metadata length or the error text).
pub fn validate_inputs(
    image_path: &str,
    device_path: &str,
    image_is_file: bool,
    device_exists: bool,
    image_len: Result<u64, String>,
) -> (r: Result<u64, String>)
    ensures
        result_view(r) == validation(
            image_path@,
            device_path@,
            image_is_file,
            device_exists,
            result_view(image_len),
        ),
{
    if !image_is_file {
        let m = concat(&chars_of("Image file not found: "), &chars_of(image_path));
        return Err(string_of(&m));
    }
    if !device_exists {
        let m = concat(&chars_of("Target device not found: "), &chars_of(device_path));
        return Err(string_of(&m));
    }
    match reject_partition_node(device_path) {
        Err(m) => {
            return Err(m);
        },
        Ok(()) => {},
    }
    match image_len {
        Err(e) => {
            let m = concat(&chars_of("Cannot stat image: "), &chars_of_string(&e));
            Err(string_of(&m))
        },
        Ok(n) => {
            if n == 0 {
                Err(crate::text::string_of_seq_str("Image file is empty"))
            } else {
                Ok(n)
            }
        },
    }
}

// ---------------------------------------------------------------------------
// Opening the device
// ---------------------------------------------------------------------------

/// Why opening the device for writing failed.
#[derive(Debug, Clone)]
pub enum OpenFailure {
    /// `EACCES` or `EPERM`.
    PermissionDenied,
    /// `EBUSY`.
    Busy,
    /// Any other error, with its text.
    Other(String),
}

/// The message shown when the device cannot be opened for writing.
pub open spec fn open_failure_text(device_path: Seq<char>, failure: OpenFailure, escalated: bool) -> Seq<
    char,
> {
    match failure {
        OpenFailure::PermissionDenied => if escalated {
            "Permission denied opening '"@ + device_path
                + "'.\nEven with setuid-root the device refused access — check that the device exists and is not in use."@
        } else {
            "Permission denied opening '"@ + device_path
                + "'.\nThe binary is not installed setuid-root.\nInstall with:\n  sudo chown root:root /usr/bin/flashkraft\n  sudo chmod u+s      /usr/bin/flashkraft"@
        },
        OpenFailure::Busy => "Device '"@ + device_path
            + "' is busy. Ensure all partitions are unmounted before flashing."@,
        OpenFailure::Other(e) => "Cannot open device '"@ + device_path + "' for writing: "@ + e@,
    }
}

/// The message for a failed open of the device.
pub fn open_failure_message(device_path: &str, failure: &OpenFailure, escalated: bool) -> (r:
    String)
    ensures
        r@ == open_failure_text(device_path@, *failure, escalated),
{
    let d = chars_of(device_path);
    match failure {
        OpenFailure::PermissionDenied => {
            let a = concat(&chars_of("Permission denied opening '"), &d);
            let b = if escalated {
                concat(
                    &a,
                    &chars_of(
                        "'.\nEven with setuid-root the device refused access — check that the device exists and is not in use.",
                    ),
                )
            } else {
                concat(
                    &a,
                    &chars_of(
                        "'.\nThe binary is not installed setuid-root.\nInstall with:\n  sudo chown root:root /usr/bin/flashkraft\n  sudo chmod u+s      /usr/bin/flashkraft",
                    ),
                )
            };
            string_of(&b)
        },
        OpenFailure::Busy => {
            let a = concat(&chars_of("Device '"), &d);
            let b = concat(
                &a,
                &chars_of("' is busy. Ensure all partitions are unmounted before flashing."),
            );
            string_of(&b)
        },
        OpenFailure::Other(e) => {
            let a = concat(&chars_of("Cannot open device '"), &d);
            let b = concat(&a, &chars_of("' for writing: "));
            let c = concat(&b, &chars_of_string(e));
            string_of(&c)
        },
    }
}

/// The steps of writing and hashing whose system errors end the pipeline.
#[derive(Debug, Clone, Copy, PartialEq, Eq)]
pub enum IoStep {
    /// Opening the image for writing it.
    OpenImage,
    /// Reading the image while writing it.
    ReadImage,
    /// Writing to the device.
    WriteDevice,
    /// Flushing the write buffer.
    Flush,
    /// Taking the device back from the write buffer.
    Unbuffer,
    /// `fsync` on the device.
    Fsync,
    /// Opening a file or device to hash it.
    OpenForHash,
    /// Reading a file or device while hashing it.
    ReadForHash,
}

/// The message for a system error `err` at a step of writing or hashing;
/// `path` is the device (for `fsync`) or the file being hashed.
pub open spec fn io_failure_text(step: IoStep, path: Seq<char>, err: Seq<char>) -> Seq<char> {
    match step {
        IoStep::OpenImage => "Cannot open image: "@ + err,
        IoStep::ReadImage => "Read error on image: "@ + err,
        IoStep::WriteDevice => "Write error on device: "@ + err,
        IoStep::Flush => "Buffer flush error: "@ + err,
        IoStep::Unbuffer => "BufWriter error: "@ + err,
        IoStep::Fsync => "fsync failed on '"@ + path + "': "@ + err
            + " — data may not have been fully written to the device"@,
        IoStep::OpenForHash => "Cannot open "@ + path + " for hashing: "@ + err,
        IoStep::ReadForHash => "Read error while hashing "@ + path + ": "@ + err,
    }
}

/// The message for a system error at a step of writing or hashing (see
/// `io_failure_text`).
pub fn io_failure_message(step: IoStep, path: &str, err: &str) -> (r: String)
    ensures
        r@ == io_failure_text(step, path@, err@),
{
    let p = chars_of(path);
    let e = chars_of(err);
    let m = match step {
        IoStep::OpenImage => concat(&chars_of("Cannot open image: "), &e),
        IoStep::ReadImage => concat(&chars_of("Read error on image: "), &e),
        IoStep::WriteDevice => concat(&chars_of("Write error on device: "), &e),
        IoStep::Flush => concat(&chars_of("Buffer flush error: "), &e),
        IoStep::Unbuffer => concat(&chars_of("BufWriter error: "), &e),
        IoStep::Fsync => {
            let a = concat(&chars_of("fsync failed on '"), &p);
            let b = concat(&a, &chars_of("': "));
            let c = concat(&b, &e);
            concat(&c, &chars_of(" — data may not have been fully written to the device"))
        },
        IoStep::OpenForHash => {
            let a = concat(&chars_of("Cannot open "), &p);
            let b = concat(&a, &chars_of(" for hashing: "));
            concat(&b, &e)
        },
        IoStep::ReadForHash => {
            let a = concat(&chars_of("Read error while hashing "), &p);
            let b = concat(&a, &chars_of(": "));
            concat(&b, &e)
        },
    };
    string_of(&m)
}

// ---------------------------------------------------------------------------
// The order of the pipeline
// ---------------------------------------------------------------------------

/// How a step of the pipeline ended.
pub enum StepOutcome {
    Succeeded,
    /// The step failed with this message.
    Failed(String),
}

pub enum StepOutcomeModel {
    Succeeded,
    Failed(Seq<char>),
}

impl View for StepOutcome {
    type V = StepOutcomeModel;

    open spec fn view(&self) -> StepOutcomeModel {
        match self {
            StepOutcome::Succeeded => StepOutcomeModel::Succeeded,
            StepOutcome::Failed(m) => StepOutcomeModel::Failed(m@),
        }
    }
}

/// What the pipeline does after a step.
pub enum PipelineAction {
    /// Announce this stage and perform it.
    Enter(FlashStage),
    /// Announce that the flash is done.
    Finish,
    /// Stop with this error.
    Abort(String),
}

pub enum ActionModel {
    Enter(StageModel),
    Finish,
    Abort(Seq<char>),
}

impl View for PipelineAction {
    type V = ActionModel;

    open spec fn view(&self) -> ActionModel {
        match self {
            PipelineAction::Enter(s) => ActionModel::Enter(s@),
            PipelineAction::Finish => ActionModel::Finish,
            PipelineAction::Abort(m) => ActionModel::Abort(m@),
        }
    }
}

/// The pipeline's next move after `stage` ended with `outcome`: a failed
/// step aborts with its message; otherwise the stages follow in the fixed
/// order (the checks at the start, unmount, write, sync, re-read the
/// partition table, verify), and only a verification that passed finishes
/// the flash.
pub open spec fn pipeline_next(stage: StageModel, outcome: StepOutcomeModel) -> ActionModel {
    match outcome {
        StepOutcomeModel::Failed(m) => ActionModel::Abort(m),
        StepOutcomeModel::Succeeded => match stage {
            StageModel::Starting => ActionModel::Enter(StageModel::Unmounting),
            StageModel::Unmounting => ActionModel::Enter(StageModel::Writing),
            StageModel::Writing => ActionModel::Enter(StageModel::Syncing),
            StageModel::Syncing => ActionModel::Enter(StageModel::Rereading),
            StageModel::Rereading => ActionModel::Enter(StageModel::Verifying),
            StageModel::Verifying => ActionModel::Finish,
            StageModel::Done => ActionModel::Finish,
            StageModel::Failed(m) => ActionModel::Abort(m),
        },
    }
}

/// The pipeline's next move (see `pipeline_next`).
pub fn pipeline_step(stage: FlashStage, outcome: StepOutcome) -> (r: PipelineAction)
    ensures
        r@ == pipeline_next(stage@, outcome@),
{
    match outcome {
        StepOutcome::Failed(m) => PipelineAction::Abort(m),
        StepOutcome::Succeeded => match stage {
            FlashStage::Starting => PipelineAction::Enter(FlashStage::Unmounting),
            FlashStage::Unmounting => PipelineAction::Enter(FlashStage::Writing),
            FlashStage::Writing => PipelineAction::Enter(FlashStage::Syncing),
            FlashStage::Syncing => PipelineAction::Enter(FlashStage::Rereading),
            FlashStage::Rereading => PipelineAction::Enter(FlashStage::Verifying),
            FlashStage::Verifying => PipelineAction::Finish,
            FlashStage::Done => PipelineAction::Finish,
            FlashStage::Failed(m) => PipelineAction::Abort(m),
        },
    }
}

/// A step's outcome from its result.
pub open spec fn outcome_of<T>(r: Result<T, Seq<char>>) -> StepOutcomeModel {
    match r {
        Ok(_) => StepOutcomeModel::Succeeded,
        Err(m) => StepOutcomeModel::Failed(m),
    }
}

/// A step's outcome from its result (see `outcome_of`).
pub fn step_outcome<T>(r: Result<T, String>) -> (o: StepOutcome)
    ensures
        o@ == outcome_of(result_text(r)),
{
    match r {
        Ok(_) => StepOutcome::Succeeded,
        Err(m) => StepOutcome::Failed(m),
    }
}

pub open spec fn result_text<T>(r: Result<T, String>) -> Result<T, Seq<char>> {
    match r {
        Ok(v) => Ok(v),
        Err(e) => Err(e@),
    }
}

/// Run with every step succeeding, the pipeline goes through unmount,
/// write, sync, re-read and verify in that order, and then finishes.
pub proof fn law_pipeline_order()
    ensures
        pipeline_next(StageModel::Starting, StepOutcomeModel::Succeeded) == ActionModel::Enter(StageModel::Unmounting),
        pipeline_next(StageModel::Unmounting, StepOutcomeModel::Succeeded) == ActionModel::Enter(StageModel::Writing),
        pipeline_next(StageModel::Writing, StepOutcomeModel::Succeeded) == ActionModel::Enter(StageModel::Syncing),
        pipeline_next(StageModel::Syncing, StepOutcomeModel::Succeeded) == ActionModel::Enter(StageModel::Rereading),
        pipeline_next(StageModel::Rereading, StepOutcomeModel::Succeeded) == ActionModel::Enter(StageModel::Verifying),
        pipeline_next(StageModel::Verifying, StepOutcomeModel::Succeeded) == ActionModel::Finish,
{
}

/// The flash is announced done only after a step that succeeded, and from
/// the pipeline's own stages only after verification; verification
/// finishes the flash exactly when the two digests agree, and a failed
/// step always stops the pipeline with its message.
pub proof fn law_done_only_after_passing_verification(
    stage: StageModel,
    outcome: StepOutcomeModel,
    image_hash: Seq<char>,
    device_hash: Seq<char>,
)
    ensures
        pipeline_next(stage, outcome) == ActionModel::Finish ==> outcome == StepOutcomeModel::Succeeded && (stage
            == StageModel::Verifying || stage == StageModel::Done),
        (pipeline_next(StageModel::Verifying, outcome_of(verdict(image_hash, device_hash))) == ActionModel::Finish)
            <==> (image_hash == device_hash),
        outcome matches StepOutcomeModel::Failed(m) ==> pipeline_next(stage, outcome) == ActionModel::Abort(m),
{
}

/// What a run of the pipeline announces.
pub enum RunEvent {
    Entered(StageModel),
    Done,
    Error(Seq<char>),
}

/// The stages the pipeline enters, in order.
pub open spec fn stage_order() -> Seq<StageModel> {
    seq![
        StageModel::Unmounting,
        StageModel::Writing,
        StageModel::Syncing,
        StageModel::Rereading,
        StageModel::Verifying,
    ]
}

/// The announcements of a run driven by `pipeline_next`: `stage` ended with
/// `outcome`, and `later` holds the outcomes of the stages entered after it,
/// in turn (the run is cut short where they run out).
pub open spec fn pipeline_run(stage: StageModel, outcome: StepOutcomeModel, later: Seq<StepOutcomeModel>) -> Seq<
    RunEvent,
>
    decreases later.len(),
{
    match pipeline_next(stage, outcome) {
        ActionModel::Enter(next) => if later.len() == 0 {
            seq![RunEvent::Entered(next)]
        } else {
            seq![RunEvent::Entered(next)] + pipeline_run(next, later[0], later.drop_first())
        },
        ActionModel::Finish => seq![RunEvent::Done],
        ActionModel::Abort(m) => seq![RunEvent::Error(m)],
    }
}

/// The stage that comes before `stage_order()[k]`.
pub open spec fn stage_before(k: int) -> StageModel {
    if k == 0 {
        StageModel::Starting
    } else {
        stage_order()[k - 1]
    }
}

proof fn lemma_run_from(k: int, outcome: StepOutcomeModel, later: Seq<StepOutcomeModel>)
    requires
        0 <= k <= 5,
    ensures
        ({
            let ev = pipeline_run(stage_before(k), outcome, later);
            &&& ev.len() > 0
            &&& forall|i: int| 0 <= i < ev.len() && (#[trigger] ev[i]) is Entered ==> k + i < 5 && ev[i]
                == RunEvent::Entered(stage_order()[k + i])
            &&& forall|i: int| 0 <= i < ev.len() && !((#[trigger] ev[i]) is Entered) ==> i == ev.len() - 1
            &&& forall|i: int|
                0 <= i < ev.len() && (#[trigger] ev[i]) is Done ==> k + i == 5 && (if i == 0 {
                    outcome == StepOutcomeModel::Succeeded
                } else {
                    i - 1 < later.len() && later[i - 1] == StepOutcomeModel::Succeeded
                })
        }),
    decreases later.len(),
{
    let ev = pipeline_run(stage_before(k), outcome, later);
    match pipeline_next(stage_before(k), outcome) {
        ActionModel::Enter(next) => {
            assert(k < 5 && next == stage_order()[k]);
            assert(stage_before(k + 1) == next);
            if later.len() > 0 {
                let rest = pipeline_run(next, later[0], later.drop_first());
                lemma_run_from(k + 1, later[0], later.drop_first());
                assert(ev == seq![RunEvent::Entered(next)] + rest);
                assert forall|i: int| 0 < i < ev.len() implies ev[i] == rest[i - 1] by {}
                assert forall|j: int| 0 <= j < later.drop_first().len() implies later.drop_first()[j] == later[j + 1] by {}
            }
        },
        ActionModel::Finish => {},
        ActionModel::Abort(m) => {},
    }
}

/// A whole run of the pipeline, started by the checks' outcome and then the
/// outcome of each stage in turn: the stages are entered in the fixed order
/// (unmount, write, sync, re-read, verify), each at most once; the run ends
/// with at most one `Done` or error, announced last; and `Done` comes only
/// after all five stages, when the verification succeeded, which with the
/// verdict of two digests is exactly when they agree.
pub proof fn law_pipeline_run(first: StepOutcomeModel, later: Seq<StepOutcomeModel>, image_hash: Seq<char>, device_hash: Seq<char>)
    ensures
        ({
            let ev = pipeline_run(StageModel::Starting, first, later);
            &&& forall|i: int| 0 <= i < ev.len() && (#[trigger] ev[i]) is Entered ==> i < 5 && ev[i]
                == RunEvent::Entered(stage_order()[i])
            &&& forall|i: int| 0 <= i < ev.len() && !((#[trigger] ev[i]) is Entered) ==> i == ev.len() - 1
            &&& forall|i: int|
                0 <= i < ev.len() && (#[trigger] ev[i]) is Done ==> i == 5 && later.len() >= 5 && later[4]
                    == StepOutcomeModel::Succeeded
        }),
        later.len() >= 5 && later[4] == outcome_of(verdict(image_hash, device_hash)) && image_hash != device_hash
            ==> !pipeline_run(StageModel::Starting, first, later).contains(RunEvent::Done),
{
    lemma_run_from(0, first, later);
    let ev = pipeline_run(StageModel::Starting, first, later);
    assert(stage_before(0) == StageModel::Starting);
    if later.len() >= 5 && later[4] == outcome_of(verdict(image_hash, device_hash)) && image_hash != device_hash {
        if ev.contains(RunEvent::Done) {
            let i = choose|i: int| 0 <= i < ev.len() && ev[i] == RunEvent::Done;
            assert(ev[i] is Done);
        }
    }
}

// ---------------------------------------------------------------------------
// Events
// ---------------------------------------------------------------------------

/// What the flash pipeline reports while it runs (the write speed is
/// measured and kept by the front-end).
pub enum FlashEvent {
    /// A stage transition.
    Stage(FlashStage),
    /// Bytes written so far, of the image's total.
    Progress { bytes_written: u64, total_bytes: u64 },
    /// An informational line.
    Log(String),
    /// The pipeline finished.
    Done,
    /// The pipeline failed with this message.
    Error(String),
}

pub enum FlashEventModel {
    Stage(StageModel),
    Progress { bytes_written: u64, total_bytes: u64 },
    Log(Seq<char>),
    Done,
    Error(Seq<char>),
}

impl View for FlashEvent {
    type V = FlashEventModel;

    open spec fn view(&self) -> FlashEventModel {
        match self {
            FlashEvent::Stage(s) => FlashEventModel::Stage(s@),
            FlashEvent::Progress { bytes_written, total_bytes } => FlashEventModel::Progress {
                bytes_written: *bytes_written,
                total_bytes: *total_bytes,
            },
            FlashEvent::Log(m) => FlashEventModel::Log(m@),
            FlashEvent::Done => FlashEventModel::Done,
            FlashEvent::Error(e) => FlashEventModel::Error(e@),
        }
    }
}

// ---------------------------------------------------------------------------
// Writing
// ---------------------------------------------------------------------------

/// The interval between two progress reports, in milliseconds.
pub const PROGRESS_INTERVAL_MS: u64 = 400;

/// The write / read-back block size: 4 MiB.
pub const BLOCK_SIZE: usize = 4194304;

/// A progress report is due once the interval has passed since the last
/// one, or once the whole image has been written.
pub open spec fn report_due(since_last_ms: u64, bytes_written: u64, image_size: u64) -> bool {
    since_last_ms >= PROGRESS_INTERVAL_MS || bytes_written >= image_size
}

/// Whether a progress report is due after a block was written.
pub fn progress_due(since_last_ms: u64, bytes_written: u64, image_size: u64) -> (r: bool)
    ensures
        r == report_due(since_last_ms, bytes_written, image_size),
{
    since_last_ms >= PROGRESS_INTERVAL_MS || bytes_written >= image_size
}

// ---------------------------------------------------------------------------
// Hashing
// ---------------------------------------------------------------------------

/// A running SHA-256 computation over the `sha2` crate's hasher.
#[verifier::external_body]
pub struct HashState {
    inner: sha2::Sha256,
}

/// The bytes fed to a running SHA-256 computation since it was created.
pub uninterp spec fn hashed_input(h: HashState) -> Seq<u8>;

/// The SHA-256 digest of a byte sequence.
pub uninterp spec fn sha256_digest(data: Seq<u8>) -> Seq<u8>;

/// `Sha256::new`: a hasher that has been fed nothing.
#[verifier::external_body]
fn sha256_new() -> (h: HashState)
    ensures
        hashed_input(h) == Seq::<u8>::empty(),
{
    HashState { inner: <sha2::Sha256 as sha2::Digest>::new() }
}

/// `Sha256::update`: the data is appended to what the hasher was fed.
#[verifier::external_body]
fn sha256_update(h: &mut HashState, data: &[u8])
    ensures
        hashed_input(*final(h)) == hashed_input(*old(h)) + data@,
{
    sha2::Digest::update(&mut h.inner, data);
}

/// `Sha256::finalize`: the 32-byte digest of everything the hasher was fed.
#[verifier::external_body]
fn sha256_finalize(h: HashState) -> (d: Vec<u8>)
    ensures
        d@ == sha256_digest(hashed_input(h)),
        d@.len() == 32,
{
    sha2::Digest::finalize(h.inner).to_vec()
}

impl HashState {
    /// The bytes hashed so far.
    pub open spec fn input(&self) -> Seq<u8> {
        hashed_input(*self)
    }

    /// A computation that has hashed nothing.
    pub fn new() -> (r: HashState)
        ensures
            r.input() == Seq::<u8>::empty(),
    {
        sha256_new()
    }

    /// Hash `data` after what was hashed before.
    pub fn update(&mut self, data: &[u8])
        ensures
            final(self).input() == old(self).input() + data@,
    {
        sha256_update(self, data);
    }

    /// The digest, as lower-case hexadecimal (`format!("{:x}", digest)`).
    pub fn finish_hex(self) -> (r: String)
        ensures
            r@ == hex_lower(sha256_digest(self.input())),
    {
        let d = sha256_finalize(self);
        hex_string(&d)
    }
}

/// How many bytes to read next while hashing the first `remaining` bytes
/// with a buffer of `buf_len` bytes.
pub open spec fn read_len(remaining: u64, buf_len: usize) -> usize {
    if remaining < buf_len as u64 {
        remaining as usize
    } else {
        buf_len
    }
}

/// `(remaining as usize).min(buf.len())`.
pub fn next_read_len(remaining: u64, buf_len: usize) -> (r: usize)
    ensures
        r == read_len(remaining, buf_len),
        r <= buf_len,
        r as u64 <= remaining,
{
    if remaining < buf_len as u64 {
        remaining as usize
    } else {
        buf_len
    }
}

/// The state of a hash over the first `limit` bytes of a stream that is
/// read in chunks.
pub struct PrefixHashModel {
    /// The bytes hashed so far.
    pub input: Seq<u8>,
    /// How many bytes are still wanted.
    pub remaining: nat,
    /// How many bytes were wanted in all.
    pub limit: nat,
    /// Whether the stream has ended (a read gave no bytes).
    pub ended: bool,
}

/// A SHA-256 computation over at most the first `limit` bytes of a stream:
/// it says how much to read next, takes each chunk read, and says when to
/// stop (once `limit` bytes were hashed, or once a read gave nothing).
pub struct PrefixHasher {
    hash: HashState,
    remaining: u64,
    limit: u64,
    ended: bool,
}

impl View for PrefixHasher {
    type V = PrefixHashModel;

    closed spec fn view(&self) -> PrefixHashModel {
        PrefixHashModel {
            input: hashed_input(self.hash),
            remaining: self.remaining as nat,
            limit: self.limit as nat,
            ended: self.ended,
        }
    }
}

/// The bytes hashed and those still wanted add up to the limit.
pub open spec fn prefix_hash_wf(m: PrefixHashModel) -> bool {
    m.input.len() + m.remaining == m.limit
}

/// Whether more bytes are to be read.
pub open spec fn wants_more_bytes(m: PrefixHashModel) -> bool {
    m.remaining > 0 && !m.ended
}

/// What has been hashed is the start of `content`, and the stream has
/// ended only where `content` ends: each chunk read was the next part of
/// `content`.
pub open spec fn read_from(m: PrefixHashModel, content: Seq<u8>) -> bool {
    &&& m.input.len() <= content.len()
    &&& m.input == content.take(m.input.len() as int)
    &&& m.ended ==> m.input.len() == content.len()
}

/// The first `n` bytes of `content`, or all of it when it is shorter.
pub open spec fn first_bytes(content: Seq<u8>, n: nat) -> Seq<u8> {
    if n <= content.len() {
        content.take(n as int)
    } else {
        content
    }
}

impl PrefixHasher {
    /// A hasher that wants the first `limit` bytes and has hashed none.
    pub fn new(limit: u64) -> (r: PrefixHasher)
        ensures
            prefix_hash_wf(r@),
            r@.input == Seq::<u8>::empty(),
            r@.remaining == limit,
            r@.limit == limit,
            !r@.ended,
    {
        PrefixHasher { hash: HashState::new(), remaining: limit, limit, ended: false }
    }

    /// Whether another chunk is to be read (`remaining > 0`, and no read has
    /// come back empty).
    pub fn wants_more(&self) -> (r: bool)
        ensures
            r == wants_more_bytes(self@),
    {
        self.remaining > 0 && !self.ended
    }

    /// How many bytes the next read asks for, with a buffer of `buf_len`
    /// bytes.
    pub fn next_len(&self, buf_len: usize) -> (r: usize)
        ensures
            r == read_len(self@.remaining as u64, buf_len),
            r <= buf_len,
            r <= self@.remaining,
    {
        next_read_len(self.remaining, buf_len)
    }

    /// Take the bytes a read gave: they are hashed and no longer wanted; an
    /// empty read marks the end of the stream.
    pub fn feed(&mut self, data: &[u8])
        requires
            prefix_hash_wf(old(self)@),
            data@.len() <= old(self)@.remaining,
        ensures
            prefix_hash_wf(final(self)@),
            final(self)@.input == old(self)@.input + data@,
            final(self)@.remaining == old(self)@.remaining - data@.len(),
            final(self)@.limit == old(self)@.limit,
            final(self)@.ended == (old(self)@.ended || data@.len() == 0),
    {
        if data.len() == 0 {
            self.ended = true;
        } else {
            self.hash.update(data);
            self.remaining = self.remaining - data.len() as u64;
        }
    }

    /// The digest of what was hashed, as lower-case hexadecimal.
    pub fn finish_hex(self) -> (r: String)
        ensures
            r@ == hex_lower(sha256_digest(self@.input)),
    {
        self.hash.finish_hex()
    }
}

/// Reading the next chunk of `content` keeps the hashed bytes the start of
/// `content`.
pub proof fn law_next_chunk_keeps_prefix(m: PrefixHashModel, data: Seq<u8>, content: Seq<u8>)
    requires
        read_from(m, content),
        !m.ended,
        data.len() > 0,
        m.input.len() + data.len() <= content.len(),
        data == content.subrange(m.input.len() as int, (m.input.len() + data.len()) as int),
    ensures
        read_from(PrefixHashModel { input: m.input + data, ended: false, ..m }, content),
{
    let k = m.input.len() as int;
    assert(m.input + data =~= content.take(k + data.len()));
}

/// An empty read at the end of `content` keeps the hashed bytes the start
/// of `content`.
pub proof fn law_empty_read_at_end(m: PrefixHashModel, content: Seq<u8>)
    requires
        read_from(m, content),
        m.input.len() == content.len(),
    ensures
        read_from(PrefixHashModel { ended: true, ..m }, content),
{
}

/// Once the hasher stops, having been fed `content` chunk by chunk, what it
/// hashed is exactly the first `limit` bytes of `content` (all of it when
/// it is shorter), so the digest is that of those bytes.
pub proof fn law_hashes_first_bytes(m: PrefixHashModel, content: Seq<u8>)
    requires
        prefix_hash_wf(m),
        read_from(m, content),
        !wants_more_bytes(m),
    ensures
        m.input == first_bytes(content, m.limit),
        sha256_digest(m.input) == sha256_digest(first_bytes(content, m.limit)),
{
    if m.remaining == 0 {
        assert(m.input.len() == m.limit);
    } else {
        assert(m.input.len() == content.len());
        assert(content.take(content.len() as int) =~= content);
    }
}

/// A lower-case hexadecimal digit.
pub open spec fn hex_char(d: int) -> char {
    if d < 10 {
        (('0' as int) + d) as char
    } else {
        (('a' as int) + d - 10) as char
    }
}

/// Two lower-case hexadecimal digits per byte.
pub open spec fn hex_lower(b: Seq<u8>) -> Seq<char>
    decreases b.len(),
{
    if b.len() == 0 {
        seq![]
    } else {
        hex_lower(b.drop_last()) + seq![hex_char((b.last() / 16) as int), hex_char((b.last() % 16) as int)]
    }
}

fn hex_char_exec(d: u8) -> (c: char)
    requires
        d < 16,
    ensures
        c == hex_char(d as int),
{
    let b: u8 = if d < 10 {
        48 + d
    } else {
        87 + d
    };
    b as char
}

/// The lower-case hexadecimal form of bytes.
pub fn hex_string(b: &Vec<u8>) -> (r: String)
    ensures
        r@ == hex_lower(b@),
{
    let mut v: Vec<char> = Vec::new();
    let mut i: usize = 0;
    while i < b.len()
        invariant
            i <= b.len(),
            v@ == hex_lower(b@.take(i as int)),
        decreases b.len() - i,
    {
        assert(b@.take(i + 1).drop_last() =~= b@.take(i as int));
        assert(b@.take(i + 1).last() == b@[i as int]);
        v.push(hex_char_exec(b[i] / 16));
        v.push(hex_char_exec(b[i] % 16));
        i += 1;
    }
    assert(b@.take(b.len() as int) =~= b@);
    string_of(&v)
}

// ---------------------------------------------------------------------------
// Verification verdict
// ---------------------------------------------------------------------------

/// The verdict on the two digests: `Ok` with the log line when they are
/// equal, `Err` with the mismatch message otherwise.
pub open spec fn verdict(image_hash: Seq<char>, device_hash: Seq<char>) -> Result<Seq<char>, Seq<
    char,
>> {
    if image_hash == device_hash {
        Ok("Verification passed ("@ + image_hash + ")"@)
    } else {
        Err("Verification failed — data mismatch (image="@ + image_hash + " device="@ + device_hash
            + ")"@)
    }
}

/// Compare the digest of the image with that of the device read-back.
pub fn verification_verdict(image_hash: &str, device_hash: &str) -> (r: Result<String, String>)
    ensures
        match r {
            Ok(m) => verdict(image_hash@, device_hash@) == Ok::<Seq<char>, Seq<char>>(m@),
            Err(m) => verdict(image_hash@, device_hash@) == Err::<Seq<char>, Seq<char>>(m@),
        },
{
    let a = chars_of(image_hash);
    let b = chars_of(device_hash);
    if eq_chars(&a, &b) {
        let m = concat(&concat(&chars_of("Verification passed ("), &a), &chars_of(")"));
        Ok(string_of(&m))
    } else {
        let m1 = concat(&chars_of("Verification failed — data mismatch (image="), &a);
        let m2 = concat(&concat(&m1, &chars_of(" device=")), &b);
        let m3 = concat(&m2, &chars_of(")"));
        Err(string_of(&m3))
    }
}

/// Verification passes exactly when the two digests are the same text; in
/// particular a device that reads back the image's own bytes always passes.
pub proof fn law_verification_passes_on_equal_digests(image_hash: Seq<char>, device_hash: Seq<char>, data: Seq<u8>)
    ensures
        (verdict(image_hash, device_hash) is Ok) <==> (image_hash == device_hash),
        verdict(hex_lower(sha256_digest(data)), hex_lower(sha256_digest(data))) is Ok,
{
}

// ---------------------------------------------------------------------------
// The real user id
// ---------------------------------------------------------------------------

/// The unprivileged user id of whoever launched the process, recorded once
/// before privileges are raised.
pub struct RealUid {
    /// The recorded id, if any.
    pub uid: Option<u32>,
}

impl RealUid {
    /// Nothing recorded yet.
    pub fn new() -> (r: RealUid)
        ensures
            r.uid is None,
    {
        RealUid { uid: None }
    }
}

/// Records the real user id; only the first recording counts.
pub fn set_real_uid(slot: &mut RealUid, uid: u32)
    ensures
        final(slot).uid == (match old(slot).uid {
            Some(u) => Some(u),
            None => Some(uid),
        }),
{
    if slot.uid.is_none() {
        slot.uid = Some(uid);
    }
}

/// The id privileges are dropped to: the recorded one, else the current one.
pub fn real_uid(slot: &RealUid, current: u32) -> (r: u32)
    ensures
        r == (match slot.uid {
            Some(u) => u,
            None => current,
        }),
{
    match slot.uid {
        Some(u) => u,
        None => current,
    }
}

} // verus!
