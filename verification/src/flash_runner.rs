//! Driving the privileged helper from the terminal UI.
//!
//! The helper's output arrives in chunks; [`LineSplitter`] cuts it into
//! trimmed lines at every `\r` or `\n` (dd rewrites its progress line with
//! `\r`).  Each line is then turned into what the UI is told
//! ([`process_line`] while the helper runs, [`drain_line`] for the lines left
//! after it exited).  Whether a progress sample moved far enough to be shown
//! is decided by the caller, which keeps the progress ratio.
use vstd::prelude::*;
use std::collections::hash_map::DefaultHasher;
use std::hash::{Hash, Hasher};
use vstd::std_specs::hash::DefaultHasherAdditionalSpecFns;
use crate::flash_writer::{
    FlashStage, LineModel, ScriptLine, StageModel, is_float_text, law_error_line_read_back, law_log_line_read_back,
    law_progress_line_read_back, law_size_line_read_back, law_stage_line_read_back, parse_line, parse_script_line,
    stage_text, wire_name,
};
use crate::text::{chars_of, chars_of_string, decimal, decimal_exec, push_all, string_of, trim, trim_exec};

verus! {

// ---------------------------------------------------------------------------
// Cutting output into lines
// ---------------------------------------------------------------------------

/// The index of the first `\r` or `\n`.
pub open spec fn first_break(s: Seq<char>) -> Option<int>
    decreases s.len(),
{
    if s.len() == 0 {
        None
    } else if s[0] == '\r' || s[0] == '\n' {
        Some(0)
    } else {
        match first_break(s.drop_first()) {
            Some(i) => Some(i + 1),
            None => None,
        }
    }
}

proof fn lemma_first_break(s: Seq<char>)
    ensures
        match first_break(s) {
            Some(i) => 0 <= i < s.len() && (s[i] == '\r' || s[i] == '\n') && forall|j: int|
                0 <= j < i ==> #[trigger] s[j] != '\r' && s[j] != '\n',
            None => forall|j: int| 0 <= j < s.len() ==> #[trigger] s[j] != '\r' && s[j] != '\n',
        },
    decreases s.len(),
{
    if s.len() > 0 {
        lemma_first_break(s.drop_first());
        assert forall|j: int| 0 < j < s.len() implies #[trigger] s[j] == s.drop_first()[j - 1] by {}
    }
}

/// The lines cut out of `s` (trimmed, empty ones dropped) and the text left
/// after the last break.
pub open spec fn split_breaks(s: Seq<char>) -> (Seq<Seq<char>>, Seq<char>)
    decreases s.len(),
{
    match first_break(s) {
        None => (Seq::empty(), s),
        Some(p) => {
            if 0 <= p < s.len() {
                let rest = split_breaks(s.subrange(p + 1, s.len() as int));
                let line = trim(s.subrange(0, p));
                (if line.len() > 0 {
                    seq![line] + rest.0
                } else {
                    rest.0
                }, rest.1)
            } else {
                (Seq::empty(), s)
            }
        },
    }
}

/// Collects helper output and hands out complete lines.
pub struct LineSplitter {
    /// Text received after the last line break.
    pub pending: String,
}

/// The index of the first `\r` or `\n` in `v` from `from` on.
fn find_break(v: &Vec<char>, from: usize) -> (r: Option<usize>)
    requires
        from <= v.len(),
    ensures
        match r {
            Some(i) => first_break(v@.skip(from as int)) == Some(i - from) && from <= i < v.len(),
            None => first_break(v@.skip(from as int)) is None,
        },
{
    let mut i = from;
    while i < v.len()
        invariant
            from <= i <= v.len(),
            first_break(v@.skip(from as int)) == match first_break(v@.skip(i as int)) {
                Some(j) => Some(j + (i - from)),
                None => None,
            },
        decreases v.len() - i,
    {
        assert(v@.skip(i as int)[0] == v@[i as int]);
        assert(v@.skip(i as int).drop_first() =~= v@.skip(i as int + 1));
        if v[i] == '\r' || v[i] == '\n' {
            return Some(i);
        }
        i += 1;
    }
    None
}

impl LineSplitter {
    /// A splitter with nothing received yet.
    pub fn new() -> (r: LineSplitter)
        ensures
            r.pending@ == Seq::<char>::empty(),
    {
        LineSplitter { pending: String::new() }
    }

    /// Takes in a chunk of output and returns the lines it completes
    /// (see `split_breaks`).
    pub fn push_chunk(&mut self, chunk: &str) -> (lines: Vec<String>)
        ensures
            crate::file_explorer::texts_view(lines@) == split_breaks(old(self).pending@ + chunk@).0,
            final(self).pending@ == split_breaks(old(self).pending@ + chunk@).1,
    {
        let mut all = chars_of_string(&self.pending);
        push_all(&mut all, &chars_of(chunk));
        let ghost whole = all@;
        let mut lines: Vec<String> = Vec::new();
        let mut start: usize = 0;
        assert(whole.skip(0) =~= whole);
        loop
            invariant
                start <= all.len(),
                all@ == whole,
                whole == old(self).pending@ + chunk@,
                split_breaks(whole) == (
                    crate::file_explorer::texts_view(lines@) + split_breaks(whole.skip(start as int)).0,
                    split_breaks(whole.skip(start as int)).1,
                ),
            decreases all.len() - start,
        {
            let ghost s = whole.skip(start as int);
            match find_break(&all, start) {
                None => {
                    let mut rest: Vec<char> = Vec::new();
                    let mut k = start;
                    while k < all.len()
                        invariant
                            start <= k <= all.len(),
                            rest@ =~= whole.subrange(start as int, k as int),
                            all@ == whole,
                        decreases all.len() - k,
                    {
                        rest.push(all[k]);
                        k += 1;
                    }
                    assert(rest@ =~= s);
                    assert(crate::file_explorer::texts_view(lines@) + Seq::<Seq<char>>::empty() =~= crate::file_explorer::texts_view(lines@));
                    self.pending = string_of(&rest);
                    return lines;
                },
                Some(p) => {
                    let ghost q = p - start;
                    let mut piece: Vec<char> = Vec::new();
                    let mut k = start;
                    while k < p
                        invariant
                            start <= k <= p < all.len(),
                            piece@ =~= whole.subrange(start as int, k as int),
                            all@ == whole,
                        decreases p - k,
                    {
                        piece.push(all[k]);
                        k += 1;
                    }
                    assert(piece@ =~= s.subrange(0, q));
                    assert(s.subrange(q + 1, s.len() as int) =~= whole.skip(p as int + 1));
                    let line = trim_exec(&piece);
                    let ghost before = crate::file_explorer::texts_view(lines@);
                    if line.len() > 0 {
                        lines.push(string_of(&line));
                        assert(crate::file_explorer::texts_view(lines@) =~= before.push(line@));
                        assert(before + (seq![line@] + split_breaks(whole.skip(p as int + 1)).0) =~= before.push(line@)
                            + split_breaks(whole.skip(p as int + 1)).0);
                    }
                    start = p + 1;
                },
            }
        }
    }

    /// The text left when the output ends: trimmed, if not empty.
    pub fn finish(&self) -> (r: Option<String>)
        ensures
            match r {
                Some(t) => trim(self.pending@).len() > 0 && t@ == trim(self.pending@),
                None => trim(self.pending@).len() == 0,
            },
    {
        let t = trim_exec(&chars_of_string(&self.pending));
        if t.len() > 0 {
            Some(string_of(&t))
        } else {
            None
        }
    }
}

/// Cutting output into lines does not depend on how it was chunked: taking
/// in `x` and then `y` gives the lines and leftover of taking in `x + y`.
pub proof fn law_chunking_does_not_matter(x: Seq<char>, y: Seq<char>)
    ensures
        ({
            let a = split_breaks(x);
            let b = split_breaks(a.1 + y);
            split_breaks(x + y) == (a.0 + b.0, b.1)
        }),
    decreases x.len(),
{
    lemma_first_break(x);
    lemma_first_break(x + y);
    match first_break(x) {
        None => {
            assert(split_breaks(x).1 == x);
            assert(Seq::<Seq<char>>::empty() + split_breaks(x + y).0 =~= split_breaks(x + y).0);
        },
        Some(p) => {
            assert((x + y)[p] == x[p]);
            assert forall|j: int| 0 <= j < p implies #[trigger] (x + y)[j] != '\r' && (x + y)[j] != '\n' by {
                assert((x + y)[j] == x[j]);
            }
            assert(first_break(x + y) == Some(p));
            let x2 = x.subrange(p + 1, x.len() as int);
            law_chunking_does_not_matter(x2, y);
            assert((x + y).subrange(p + 1, (x + y).len() as int) =~= x2 + y);
            assert((x + y).subrange(0, p) =~= x.subrange(0, p));
            let a2 = split_breaks(x2);
            let b = split_breaks(a2.1 + y);
            let line = trim(x.subrange(0, p));
            if line.len() > 0 {
                assert(seq![line] + (a2.0 + b.0) =~= (seq![line] + a2.0) + b.0);
            }
        },
    }
}

// ---------------------------------------------------------------------------
// What each line tells the UI
// ---------------------------------------------------------------------------

/// What the UI is told about one line of helper output.
#[derive(Debug, PartialEq, Eq)]
pub enum LineEffect {
    /// A stage label.
    Stage(String),
    /// The final stage's label, then completion: the run is over.
    Finished(String),
    /// Completion (a final stage seen after the helper exited).
    Completed,
    /// A progress sample: bytes written and the speed as written.
    Progress(u64, String),
    /// A dd progress sample: bytes written, speed value and unit as written.
    DdProgress(u64, String, String),
    /// dd exited cleanly: the progress goes to full if it is not there.
    DdFinished,
    /// An informational line.
    Log(String),
    /// A terminal error.
    Fail(String),
    /// Nothing to tell.
    Nothing,
}

/// `LineEffect` as plain values.
pub enum EffectModel {
    Stage(Seq<char>),
    Finished(Seq<char>),
    Completed,
    Progress(u64, Seq<char>),
    DdProgress(u64, Seq<char>, Seq<char>),
    DdFinished,
    Log(Seq<char>),
    Fail(Seq<char>),
    Nothing,
}

impl View for LineEffect {
    type V = EffectModel;

    open spec fn view(&self) -> EffectModel {
        match self {
            LineEffect::Stage(s) => EffectModel::Stage(s@),
            LineEffect::Finished(s) => EffectModel::Finished(s@),
            LineEffect::Completed => EffectModel::Completed,
            LineEffect::Progress(b, s) => EffectModel::Progress(*b, s@),
            LineEffect::DdProgress(b, v, u) => EffectModel::DdProgress(*b, v@, u@),
            LineEffect::DdFinished => EffectModel::DdFinished,
            LineEffect::Log(s) => EffectModel::Log(s@),
            LineEffect::Fail(s) => EffectModel::Fail(s@),
            LineEffect::Nothing => EffectModel::Nothing,
        }
    }
}

/// The decimal text of a signed number.
pub open spec fn signed_decimal(i: int) -> Seq<char> {
    if i < 0 {
        seq!['-'] + decimal((-i) as nat)
    } else {
        decimal(i as nat)
    }
}

/// The progress effects, which need a known total size.
pub open spec fn sample_effect(l: LineModel, total: u64) -> EffectModel {
    match l {
        LineModel::Progress(b, sp) => if total > 0 {
            EffectModel::Progress(b, sp)
        } else {
            EffectModel::Nothing
        },
        LineModel::DdProgress(b, v, u) => if total > 0 {
            EffectModel::DdProgress(b, v, u)
        } else {
            EffectModel::Nothing
        },
        _ => EffectModel::Nothing,
    }
}

/// The total size after a line: a non-zero `SIZE` replaces it.
pub open spec fn total_after(l: LineModel, total: u64) -> u64 {
    match l {
        LineModel::Size(n) => if n > 0 {
            n
        } else {
            total
        },
        _ => total,
    }
}

/// What a line tells the UI while the helper runs.
pub open spec fn live_effect(l: LineModel, total: u64) -> EffectModel {
    match l {
        LineModel::Stage(s) => if s == StageModel::Done {
            EffectModel::Finished(stage_text(s))
        } else {
            EffectModel::Stage(stage_text(s))
        },
        LineModel::Progress(_, _) => sample_effect(l, total),
        LineModel::DdProgress(_, _, _) => sample_effect(l, total),
        LineModel::DdExit(c) => if c == 0 {
            EffectModel::DdFinished
        } else {
            EffectModel::Log("dd exited with code "@ + signed_decimal(c as int))
        },
        LineModel::Error(m) => EffectModel::Fail(m),
        LineModel::Log(m) => EffectModel::Log(m),
        _ => EffectModel::Nothing,
    }
}

/// What a line left over after the helper exited tells the UI: the final
/// stage is completion, exit codes of dd other than zero and unknown lines
/// are dropped.
pub open spec fn drained_effect(l: LineModel, total: u64) -> EffectModel {
    match l {
        LineModel::Stage(s) => if s == StageModel::Done {
            EffectModel::Completed
        } else {
            EffectModel::Stage(stage_text(s))
        },
        LineModel::Progress(_, _) => sample_effect(l, total),
        LineModel::DdProgress(_, _, _) => sample_effect(l, total),
        LineModel::DdExit(c) => if c == 0 {
            EffectModel::DdFinished
        } else {
            EffectModel::Nothing
        },
        LineModel::Error(m) => EffectModel::Fail(m),
        LineModel::Log(m) => EffectModel::Log(m),
        _ => EffectModel::Nothing,
    }
}

/// What the helper writes reaches the terminal UI unchanged: an announced
/// stage shows as its status text (the final one ends the run), an announced
/// non-zero size becomes the total, a progress report is shown once the
/// total is known, and log and error messages without surrounding
/// whitespace are shown (an error ends the run) as written.
pub proof fn law_helper_reports_reach_the_screen(
    s: StageModel,
    n: u64,
    bytes: u64,
    speed: Seq<char>,
    msg: Seq<char>,
    total: u64,
)
    requires
        is_float_text(speed),
        trim(speed) == speed,
        trim(msg) == msg,
    ensures
        wire_name(s) matches Some(w) ==> live_effect(parse_line("STAGE:"@ + w), total) == (if s
            == StageModel::Done {
            EffectModel::Finished(stage_text(s))
        } else {
            EffectModel::Stage(stage_text(s))
        }),
        total_after(parse_line("SIZE:"@ + decimal(n as nat)), total) == (if n > 0 {
            n
        } else {
            total
        }),
        total > 0 ==> live_effect(parse_line("PROGRESS:"@ + decimal(bytes as nat) + seq![':'] + speed), total)
            == EffectModel::Progress(bytes, speed),
        live_effect(parse_line("LOG:"@ + msg), total) == EffectModel::Log(msg),
        live_effect(parse_line("ERROR:"@ + msg), total) == EffectModel::Fail(msg),
{
    law_stage_line_read_back(s);
    law_size_line_read_back(n);
    law_progress_line_read_back(bytes, speed);
    law_log_line_read_back(msg);
    law_error_line_read_back(msg);
}

/// The decimal text of an `i32`.
pub(crate) fn signed_text(c: i32) -> (r: Vec<char>)
    ensures
        r@ == signed_decimal(c as int),
{
    if c < 0 {
        let m: i64 = -(c as i64);
        let mut r = vec!['-'];
        push_all(&mut r, &decimal_exec(m as u128));
        r
    } else {
        decimal_exec(c as u128)
    }
}

/// The effect of a parsed line, and the new total size.
fn effect_of(l: ScriptLine, total_size: &mut u64, live: bool) -> (r: LineEffect)
    ensures
        *final(total_size) == total_after(l@, *old(total_size)),
        r@ == (if live {
            live_effect(l@, *old(total_size))
        } else {
            drained_effect(l@, *old(total_size))
        }),
{
    match l {
        ScriptLine::Stage(stage) => {
            let label = stage.to_string();
            match stage {
                FlashStage::Done => {
                    if live {
                        LineEffect::Finished(label)
                    } else {
                        LineEffect::Completed
                    }
                },
                _ => LineEffect::Stage(label),
            }
        },
        ScriptLine::Size(n) => {
            if n > 0 {
                *total_size = n;
            }
            LineEffect::Nothing
        },
        ScriptLine::Progress(b, sp) => {
            if *total_size > 0 {
                LineEffect::Progress(b, sp)
            } else {
                LineEffect::Nothing
            }
        },
        ScriptLine::DdProgress(b, v, u) => {
            if *total_size > 0 {
                LineEffect::DdProgress(b, v, u)
            } else {
                LineEffect::Nothing
            }
        },
        ScriptLine::DdExit(c) => {
            if c == 0 {
                LineEffect::DdFinished
            } else if live {
                let mut msg = chars_of("dd exited with code ");
                push_all(&mut msg, &signed_text(c));
                LineEffect::Log(string_of(&msg))
            } else {
                LineEffect::Nothing
            }
        },
        ScriptLine::Error(m) => LineEffect::Fail(m),
        ScriptLine::Log(m) => LineEffect::Log(m),
        ScriptLine::Unknown(_) => LineEffect::Nothing,
    }
}

/// What a line tells the UI while the helper runs (see `live_effect`); a
/// non-zero `SIZE` line replaces the total size.
pub fn process_line(line: &str, total_size: &mut u64) -> (r: LineEffect)
    ensures
        r@ == live_effect(parse_line(line@), *old(total_size)),
        *final(total_size) == total_after(parse_line(line@), *old(total_size)),
{
    effect_of(parse_script_line(line), total_size, true)
}

/// What a line left over after the helper exited tells the UI (see
/// `drained_effect`); a non-zero `SIZE` line replaces the total size.
pub fn drain_line(line: &str, total_size: &mut u64) -> (r: LineEffect)
    ensures
        r@ == drained_effect(parse_line(line@), *old(total_size)),
        *final(total_size) == total_after(parse_line(line@), *old(total_size)),
{
    effect_of(parse_script_line(line), total_size, false)
}

/// The failure reported when the flash thread's channel closes without a
/// final event.
pub open spec fn closed_channel_message(cancelled: bool) -> Seq<char> {
    if cancelled {
        "Flash operation cancelled by user"@
    } else {
        "Flash thread terminated unexpectedly"@
    }
}

/// The failure reported when the flash thread's channel closes without a
/// final event: a cancellation when the cancel flag is set.
pub fn closed_channel_failure(cancelled: bool) -> (r: String)
    ensures
        r@ == closed_channel_message(cancelled),
{
    if cancelled {
        string_of(&chars_of("Flash operation cancelled by user"))
    } else {
        string_of(&chars_of("Flash thread terminated unexpectedly"))
    }
}

/// What hashing a path given as text, as a `PathBuf`, writes into a
/// `DefaultHasher`: the sequence of byte writes `<PathBuf as Hash>::hash`
/// makes (its components and their lengths, the lengths in the target's
/// `usize` layout).
pub uninterp spec fn path_writes(p: Seq<char>) -> Seq<Seq<u8>>;

/// `<PathBuf as Hash>::hash` of the path `p` into `h`: the hasher has been
/// written what it had, then `path_writes` of the path.
#[verifier::external_body]
fn hash_path(h: &mut DefaultHasher, p: &str)
    ensures
        final(h)@ == old(h)@ + path_writes(p@),
{
    std::path::PathBuf::from(p).hash(h);
}

/// The stream identifier of a flash: what `DefaultHasher` finishes with
/// after the image path and then the device path were hashed.
pub open spec fn stream_id(image: Seq<char>, device: Seq<char>) -> u64 {
    DefaultHasher::spec_finish(path_writes(image) + path_writes(device))
}

/// The identifier of the progress stream of a flash: the hash of the image
/// and device paths, the same for the same pair.
pub fn subscription_id(image: &str, device: &str) -> (r: u64)
    ensures
        r == stream_id(image@, device@),
{
    let mut hasher = DefaultHasher::new();
    hash_path(&mut hasher, image);
    hash_path(&mut hasher, device);
    assert(hasher@ =~= path_writes(image@) + path_writes(device@));
    hasher.finish()
}

// ---------------------------------------------------------------------------
// How a run of the helper ends
// ---------------------------------------------------------------------------

/// The image size a run starts with: a failure when the image cannot be
/// read (its metadata error's text) or is empty.
pub open spec fn run_image_size(meta: Result<u64, Seq<char>>) -> Result<u64, Seq<char>> {
    match meta {
        Ok(n) => if n == 0 {
            Err("Image file is empty."@)
        } else {
            Ok(n)
        },
        Err(e) => Err("Cannot read image file: "@ + e),
    }
}

/// The image size a run starts with (see `run_image_size`).
pub fn run_image_check(meta: Result<u64, String>) -> (r: Result<u64, String>)
    ensures
        match (r, meta) {
            (Ok(n), Ok(m)) => run_image_size(Ok(m)) == Ok::<u64, Seq<char>>(n),
            (Err(e), Ok(m)) => run_image_size(Ok(m)) == Err::<u64, Seq<char>>(e@),
            (Ok(n), Err(x)) => run_image_size(Err(x@)) == Ok::<u64, Seq<char>>(n),
            (Err(e), Err(x)) => run_image_size(Err(x@)) == Err::<u64, Seq<char>>(e@),
        },
{
    match meta {
        Ok(n) => if n == 0 {
            Err(string_of(&chars_of("Image file is empty.")))
        } else {
            Ok(n)
        },
        Err(e) => {
            let mut m = chars_of("Cannot read image file: ");
            push_all(&mut m, &chars_of_string(&e));
            Err(string_of(&m))
        },
    }
}

/// How a run of the helper ends: a cancellation wins; else success when the
/// helper exited with code 0, a failure naming the exit code (-1 when a
/// signal ended it) otherwise.
pub open spec fn run_result(cancelled: bool, exit_code: Option<i32>) -> Result<(), Seq<char>> {
    if cancelled {
        Err("Flash operation cancelled by user."@)
    } else if exit_code == Some(0i32) {
        Ok(())
    } else {
        Err("Flash helper exited with code "@ + signed_decimal(
            match exit_code {
                Some(c) => c as int,
                None => -1,
            },
        ))
    }
}

/// How a run of the helper ends (see `run_result`).
pub fn run_outcome(cancelled: bool, exit_code: Option<i32>) -> (r: Result<(), String>)
    ensures
        match r {
            Ok(()) => run_result(cancelled, exit_code) == Ok::<(), Seq<char>>(()),
            Err(m) => run_result(cancelled, exit_code) == Err::<(), Seq<char>>(m@),
        },
{
    if cancelled {
        return Err(string_of(&chars_of("Flash operation cancelled by user.")));
    }
    if exit_code == Some(0i32) {
        return Ok(());
    }
    let code: i32 = match exit_code {
        Some(c) => c,
        None => -1,
    };
    let mut m = chars_of("Flash helper exited with code ");
    push_all(&mut m, &signed_text(code));
    Err(string_of(&m))
}

} // verus!
