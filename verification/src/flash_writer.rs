//! Wire protocol between the privileged flash helper and the user interface.
//!
//! The helper writes one structured line per event:
//!
//! ```text
//! STAGE:WRITING
//! SIZE:7948206080
//! PROGRESS:4194304:35.60        <- bytes_written:speed_mb_s
//! LOG:Unmounting /dev/sdb1
//! ERROR:<message>
//! ```
//!
//! [`parse_script_line`] turns one such line into a [`ScriptLine`].  Speeds
//! are kept as the decimal text the helper wrote (checked against the grammar
//! of `f32::from_str`); the caller turns them into numbers.
use vstd::prelude::*;
use crate::external::{is_ascii_text, lowercase_of, to_lowercase};
use crate::text::{
    ends_with, ends_with_exec,
    all_digits, ascii_lower, chars_of, chars_of_string, concat, contains, contains_exec, digit,
    eq_chars, find_char, find_char_exec, is_digit, is_numeral, lemma_find_from_facts, parse_i32,
    parse_i32_exec, parse_u64, parse_u64_exec, slice_chars, split_ws, starts_with,
    starts_with_exec, string_of, string_of_seq_str, to_ascii_lower, trim, trim_exec, views, words,
    decimal, decimal_exec, push_all, is_ws, lemma_trim_fixed, lemma_decimal, lemma_find_char_facts,
};

verus! {

// ---------------------------------------------------------------------------
// Stages
// ---------------------------------------------------------------------------

/// The stage currently active in the flash pipeline.
#[derive(Debug, Clone, PartialEq, Eq)]
pub enum FlashStage {
    /// Initial state before the pipeline starts.
    Starting,
    /// All partitions of the target device are being lazily unmounted.
    Unmounting,
    /// The image is being written to the block device.
    Writing,
    /// Kernel write-back caches are being flushed.
    Syncing,
    /// The kernel is asked to re-read the partition table.
    Rereading,
    /// The written data is compared against the image.
    Verifying,
    /// The entire pipeline completed successfully.
    Done,
    /// The pipeline failed with the enclosed message.
    Failed(String),
}

/// The mathematical value of a [`FlashStage`].
pub enum StageModel {
    Starting,
    Unmounting,
    Writing,
    Syncing,
    Rereading,
    Verifying,
    Done,
    Failed(Seq<char>),
}

impl View for FlashStage {
    type V = StageModel;

    open spec fn view(&self) -> StageModel {
        match self {
            FlashStage::Starting => StageModel::Starting,
            FlashStage::Unmounting => StageModel::Unmounting,
            FlashStage::Writing => StageModel::Writing,
            FlashStage::Syncing => StageModel::Syncing,
            FlashStage::Rereading => StageModel::Rereading,
            FlashStage::Verifying => StageModel::Verifying,
            FlashStage::Done => StageModel::Done,
            FlashStage::Failed(m) => StageModel::Failed(m@),
        }
    }
}

/// The human-readable status message of a stage.
pub open spec fn stage_text(s: StageModel) -> Seq<char> {
    match s {
        StageModel::Starting => "Starting…"@,
        StageModel::Unmounting => "Unmounting partitions…"@,
        StageModel::Writing => "Writing image to device…"@,
        StageModel::Syncing => "Flushing write buffers…"@,
        StageModel::Rereading => "Refreshing partition table…"@,
        StageModel::Verifying => "Verifying written data…"@,
        StageModel::Done => "Flash complete!"@,
        StageModel::Failed(m) => "Failed: "@ + m,
    }
}

/// The stage named by the text after `STAGE:` (already trimmed).
pub open spec fn stage_named(name: Seq<char>) -> StageModel {
    if name == "UNMOUNTING"@ {
        StageModel::Unmounting
    } else if name == "WRITING"@ {
        StageModel::Writing
    } else if name == "SYNCING"@ {
        StageModel::Syncing
    } else if name == "REREADING"@ {
        StageModel::Rereading
    } else if name == "VERIFYING"@ {
        StageModel::Verifying
    } else if name == "DONE"@ {
        StageModel::Done
    } else {
        StageModel::Failed(name)
    }
}

/// The name a stage has on the wire, for the stages the helper announces.
pub open spec fn wire_name(s: StageModel) -> Option<Seq<char>> {
    match s {
        StageModel::Unmounting => Some("UNMOUNTING"@),
        StageModel::Writing => Some("WRITING"@),
        StageModel::Syncing => Some("SYNCING"@),
        StageModel::Rereading => Some("REREADING"@),
        StageModel::Verifying => Some("VERIFYING"@),
        StageModel::Done => Some("DONE"@),
        _ => None,
    }
}

fn is_word(v: &Vec<char>, w: &str) -> (r: bool)
    ensures
        r == (v@ == w@),
{
    let c = chars_of(w);
    eq_chars(v, &c)
}

/// The stage named by `name`.
pub fn stage_from_name(name: &Vec<char>) -> (r: FlashStage)
    ensures
        r@ == stage_named(name@),
{
    if is_word(name, "UNMOUNTING") {
        FlashStage::Unmounting
    } else if is_word(name, "WRITING") {
        FlashStage::Writing
    } else if is_word(name, "SYNCING") {
        FlashStage::Syncing
    } else if is_word(name, "REREADING") {
        FlashStage::Rereading
    } else if is_word(name, "VERIFYING") {
        FlashStage::Verifying
    } else if is_word(name, "DONE") {
        FlashStage::Done
    } else {
        FlashStage::Failed(string_of(name))
    }
}

impl FlashStage {
    /// The human-readable status message of this stage.
    pub fn to_string(&self) -> (r: String)
        ensures
            r@ == stage_text(self@),
    {
        match self {
            FlashStage::Starting => string_of_seq_str("Starting…"),
            FlashStage::Unmounting => string_of_seq_str("Unmounting partitions…"),
            FlashStage::Writing => string_of_seq_str("Writing image to device…"),
            FlashStage::Syncing => string_of_seq_str("Flushing write buffers…"),
            FlashStage::Rereading => string_of_seq_str("Refreshing partition table…"),
            FlashStage::Verifying => string_of_seq_str("Verifying written data…"),
            FlashStage::Done => string_of_seq_str("Flash complete!"),
            FlashStage::Failed(m) => {
                let head = chars_of("Failed: ");
                let tail = chars_of_string(m);
                let all = concat(&head, &tail);
                string_of(&all)
            },
        }
    }
}

// ---------------------------------------------------------------------------
// Decimal numbers as `f32::from_str` reads them
// ---------------------------------------------------------------------------

pub open spec fn lower_all(s: Seq<char>) -> Seq<char> {
    s.map_values(|c: char| ascii_lower(c))
}

pub open spec fn strip_sign(s: Seq<char>) -> Seq<char> {
    if s.len() > 0 && (s[0] == '+' || s[0] == '-') {
        s.drop_first()
    } else {
        s
    }
}

/// `Digit+ | Digit+ '.' Digit* | Digit* '.' Digit+`
pub open spec fn is_mantissa(m: Seq<char>) -> bool {
    match find_char(m, '.') {
        None => is_numeral(m),
        Some(p) => all_digits(m.take(p)) && all_digits(m.skip(p + 1)) && (p > 0 || m.len() > p
            + 1),
    }
}

/// `Number ::= Mantissa ('e' Sign? Digit+)?`
pub open spec fn is_number(b: Seq<char>) -> bool {
    match find_char(b, 'e') {
        None => is_mantissa(b),
        Some(k) => is_mantissa(b.take(k)) && is_numeral(strip_sign(b.skip(k + 1))),
    }
}

/// The strings that `f32::from_str` accepts: once lower-cased,
/// `Sign? ('inf' | 'infinity' | 'nan' | Number)`.
pub open spec fn is_float_text(s: Seq<char>) -> bool {
    let b = strip_sign(lower_all(s));
    ||| b == seq!['i', 'n', 'f']
    ||| b == seq!['i', 'n', 'f', 'i', 'n', 'i', 't', 'y']
    ||| b == seq!['n', 'a', 'n']
    ||| is_number(b)
}

fn lower_vec(s: &Vec<char>) -> (r: Vec<char>)
    ensures
        r@ == lower_all(s@),
{
    let mut r: Vec<char> = Vec::new();
    let mut i: usize = 0;
    while i < s.len()
        invariant
            i <= s.len(),
            r@ =~= lower_all(s@).take(i as int),
        decreases s.len() - i,
    {
        r.push(to_ascii_lower(s[i]));
        i += 1;
    }
    assert(lower_all(s@).take(s.len() as int) =~= lower_all(s@));
    r
}

fn strip_sign_exec(s: Vec<char>) -> (r: Vec<char>)
    ensures
        r@ == strip_sign(s@),
{
    if s.len() > 0 && (s[0] == '+' || s[0] == '-') {
        slice_chars(&s, 1, s.len())
    } else {
        s
    }
}

fn all_digits_exec(s: &Vec<char>, a: usize, b: usize) -> (r: bool)
    requires
        a <= b <= s.len(),
    ensures
        r == all_digits(s@.subrange(a as int, b as int)),
{
    let mut i = a;
    while i < b
        invariant
            a <= i <= b <= s.len(),
            all_digits(s@.subrange(a as int, i as int)),
        decreases b - i,
    {
        if !digit(s[i]) {
            assert(s@.subrange(a as int, b as int)[i - a] == s@[i as int]);
            return false;
        }
        assert forall|j: int| 0 <= j < i + 1 - a implies is_digit(
            #[trigger] s@.subrange(a as int, i + 1)[j],
        ) by {
            if j < i - a {
                assert(s@.subrange(a as int, i + 1)[j] == s@.subrange(a as int, i as int)[j]);
            }
        }
        i += 1;
    }
    true
}

fn is_mantissa_exec(m: &Vec<char>) -> (r: bool)
    ensures
        r == is_mantissa(m@),
{
    match find_char_exec(m, '.') {
        None => {
            let r = m.len() > 0 && all_digits_exec(m, 0, m.len());
            assert(m@.subrange(0, m.len() as int) =~= m@);
            r
        },
        Some(p) => {
            proof {
                lemma_find_from_facts(m@, seq!['.'], 0);
            }
            let a = all_digits_exec(m, 0, p);
            let b = all_digits_exec(m, p + 1, m.len());
            assert(m@.subrange(0, p as int) =~= m@.take(p as int));
            assert(m@.subrange(p + 1, m.len() as int) =~= m@.skip(p + 1));
            a && b && (p > 0 || m.len() > p + 1)
        },
    }
}

fn is_number_exec(b: &Vec<char>) -> (r: bool)
    ensures
        r == is_number(b@),
{
    match find_char_exec(b, 'e') {
        None => is_mantissa_exec(b),
        Some(k) => {
            proof {
                lemma_find_from_facts(b@, seq!['e'], 0);
            }
            let m = slice_chars(b, 0, k);
            assert(m@ =~= b@.take(k as int));
            let e = slice_chars(b, k + 1, b.len());
            assert(e@ =~= b@.skip(k + 1));
            let e = strip_sign_exec(e);
            let ok_e = e.len() > 0 && all_digits_exec(&e, 0, e.len());
            assert(e@.subrange(0, e.len() as int) =~= e@);
            is_mantissa_exec(&m) && ok_e
        },
    }
}

/// Whether `f32::from_str` accepts `s`.
pub fn is_float_text_exec(s: &Vec<char>) -> (r: bool)
    ensures
        r == is_float_text(s@),
{
    let b = strip_sign_exec(lower_vec(s));
    let inf = vec!['i', 'n', 'f'];
    let infinity = vec!['i', 'n', 'f', 'i', 'n', 'i', 't', 'y'];
    let nan = vec!['n', 'a', 'n'];
    assert(inf@ =~= seq!['i', 'n', 'f']);
    assert(infinity@ =~= seq!['i', 'n', 'f', 'i', 'n', 'i', 't', 'y']);
    assert(nan@ =~= seq!['n', 'a', 'n']);
    eq_chars(&b, &inf) || eq_chars(&b, &infinity) || eq_chars(&b, &nan) || is_number_exec(&b)
}

// ---------------------------------------------------------------------------
// Parsed lines
// ---------------------------------------------------------------------------

/// One parsed line of helper output.
#[derive(Debug, Clone, PartialEq)]
pub enum ScriptLine {
    /// `STAGE:<name>` — stage transition.
    Stage(FlashStage),
    /// `SIZE:<bytes>` — total image size.
    Size(u64),
    /// `PROGRESS:<bytes_written>:<speed_mb_s>` — the speed as written, a
    /// text that `f32::from_str` accepts.
    Progress(u64, String),
    /// `DD_EXIT:<code>` — exit code of a `dd` run.
    DdExit(i32),
    /// `ERROR:<message>` — terminal error.
    Error(String),
    /// `LOG:<message>` — informational message.
    Log(String),
    /// A `dd status=progress` line: bytes written, then the speed value and
    /// unit tokens (e.g. `"35.6"`, `"MB/s"`).
    DdProgress(u64, String, String),
    /// Anything else.
    Unknown(String),
}

/// The mathematical value of a [`ScriptLine`].
pub enum LineModel {
    Stage(StageModel),
    Size(u64),
    Progress(u64, Seq<char>),
    DdExit(i32),
    Error(Seq<char>),
    Log(Seq<char>),
    DdProgress(u64, Seq<char>, Seq<char>),
    Unknown(Seq<char>),
}

impl View for ScriptLine {
    type V = LineModel;

    open spec fn view(&self) -> LineModel {
        match self {
            ScriptLine::Stage(s) => LineModel::Stage(s@),
            ScriptLine::Size(n) => LineModel::Size(*n),
            ScriptLine::Progress(b, s) => LineModel::Progress(*b, s@),
            ScriptLine::DdExit(c) => LineModel::DdExit(*c),
            ScriptLine::Error(m) => LineModel::Error(m@),
            ScriptLine::Log(m) => LineModel::Log(m@),
            ScriptLine::DdProgress(b, v, u) => LineModel::DdProgress(*b, v@, u@),
            ScriptLine::Unknown(m) => LineModel::Unknown(m@),
        }
    }
}

/// The text after a prefix.
pub open spec fn after(s: Seq<char>, p: Seq<char>) -> Seq<char> {
    s.skip(p.len() as int)
}

/// The fields of `<bytes>:<speed>`: the text is split at its first `':'`,
/// both halves trimmed, the first read as a `u64` and the second accepted
/// by `f32::from_str`.
pub open spec fn progress_fields(rest: Seq<char>) -> Option<(u64, Seq<char>)> {
    match find_char(rest, ':') {
        None => None,
        Some(k) => {
            let bytes = parse_u64(trim(rest.take(k)));
            let speed = trim(rest.skip(k + 1));
            if bytes is Some && is_float_text(speed) {
                Some((bytes->0, speed))
            } else {
                None
            }
        },
    }
}

/// The fields of a `dd status=progress` line (already trimmed): it holds
/// `"bytes"` and `"copied"`, has at least two whitespace-separated tokens,
/// and its first token is a `u64`.  The result is the byte count and the
/// last two tokens (speed value and unit).
pub open spec fn dd_fields(line: Seq<char>) -> Option<(u64, Seq<char>, Seq<char>)> {
    let toks = words(line);
    if contains(line, "bytes"@) && contains(line, "copied"@) && toks.len() >= 2 && parse_u64(
        toks[0],
    ) is Some {
        Some((parse_u64(toks[0])->0, toks[toks.len() - 2], toks[toks.len() - 1]))
    } else {
        None
    }
}

/// What one line of helper output means, trying the formats in priority
/// order: `PROGRESS:`, `STAGE:`, `SIZE:`, `DD_EXIT:`, `ERROR:`, `LOG:`, a
/// `dd` progress line, and finally `Unknown`.
pub open spec fn parse_line(raw: Seq<char>) -> LineModel {
    let line = trim(raw);
    if starts_with(line, "PROGRESS:"@) && progress_fields(after(line, "PROGRESS:"@)) is Some {
        let f = progress_fields(after(line, "PROGRESS:"@))->0;
        LineModel::Progress(f.0, f.1)
    } else if starts_with(line, "STAGE:"@) {
        LineModel::Stage(stage_named(trim(after(line, "STAGE:"@))))
    } else if starts_with(line, "SIZE:"@) && parse_u64(trim(after(line, "SIZE:"@))) is Some {
        LineModel::Size(parse_u64(trim(after(line, "SIZE:"@)))->0)
    } else if starts_with(line, "DD_EXIT:"@) && parse_i32(trim(after(line, "DD_EXIT:"@))) is Some {
        LineModel::DdExit(parse_i32(trim(after(line, "DD_EXIT:"@)))->0)
    } else if starts_with(line, "ERROR:"@) {
        LineModel::Error(trim(after(line, "ERROR:"@)))
    } else if starts_with(line, "LOG:"@) {
        LineModel::Log(trim(after(line, "LOG:"@)))
    } else if dd_fields(line) is Some {
        let f = dd_fields(line)->0;
        LineModel::DdProgress(f.0, f.1, f.2)
    } else {
        LineModel::Unknown(line)
    }
}

/// `Some(rest)` when `s` starts with the literal `p`.
fn strip_prefix_lit(s: &Vec<char>, p: &str) -> (r: Option<Vec<char>>)
    ensures
        match r {
            Some(rest) => starts_with(s@, p@) && rest@ == after(s@, p@),
            None => !starts_with(s@, p@),
        },
{
    let pv = chars_of(p);
    if starts_with_exec(s, &pv) {
        let rest = slice_chars(s, pv.len(), s.len());
        assert(rest@ =~= s@.skip(pv.len() as int));
        Some(rest)
    } else {
        None
    }
}

fn progress_fields_exec(rest: &Vec<char>) -> (r: Option<(u64, Vec<char>)>)
    ensures
        match r {
            Some(f) => progress_fields(rest@) == Some((f.0, f.1@)),
            None => progress_fields(rest@) is None,
        },
{
    match find_char_exec(rest, ':') {
        None => None,
        Some(k) => {
            proof {
                lemma_find_from_facts(rest@, seq![':'], 0);
            }
            let a = slice_chars(rest, 0, k);
            assert(a@ =~= rest@.take(k as int));
            let b = slice_chars(rest, k + 1, rest.len());
            assert(b@ =~= rest@.skip(k + 1));
            let bytes = parse_u64_exec(&trim_exec(&a));
            let speed = trim_exec(&b);
            if bytes.is_some() && is_float_text_exec(&speed) {
                Some((bytes.unwrap(), speed))
            } else {
                None
            }
        },
    }
}

/// The byte count and speed tokens of a `dd` progress line (already
/// trimmed).
pub fn dd_fields_exec(line: &Vec<char>) -> (r: Option<(u64, Vec<char>, Vec<char>)>)
    ensures
        match r {
            Some(f) => dd_fields(line@) == Some((f.0, f.1@, f.2@)),
            None => dd_fields(line@) is None,
        },
{
    let bytes_w = chars_of("bytes");
    let copied_w = chars_of("copied");
    if !(contains_exec(line, &bytes_w) && contains_exec(line, &copied_w)) {
        return None;
    }
    let toks = split_ws(line);
    if toks.len() < 2 {
        return None;
    }
    proof {
        assert(views(toks@)[0] == toks@[0]@);
    }
    match parse_u64_exec(&toks[0]) {
        None => None,
        Some(n) => {
            let v = toks[toks.len() - 2].clone();
            let u = toks[toks.len() - 1].clone();
            proof {
                assert(views(toks@)[toks.len() - 2] == toks@[toks.len() - 2]@);
                assert(views(toks@)[toks.len() - 1] == toks@[toks.len() - 1]@);
            }
            Some((n, v, u))
        },
    }
}

/// Parse one line of output from the flash helper.
pub fn parse_script_line(raw: &str) -> (r: ScriptLine)
    ensures
        r@ == parse_line(raw@),
{
    let all = chars_of(raw);
    let line = trim_exec(&all);
    if let Some(rest) = strip_prefix_lit(&line, "PROGRESS:") {
        if let Some(f) = progress_fields_exec(&rest) {
            return ScriptLine::Progress(f.0, string_of(&f.1));
        }
    }
    if let Some(rest) = strip_prefix_lit(&line, "STAGE:") {
        return ScriptLine::Stage(stage_from_name(&trim_exec(&rest)));
    }
    if let Some(rest) = strip_prefix_lit(&line, "SIZE:") {
        if let Some(n) = parse_u64_exec(&trim_exec(&rest)) {
            return ScriptLine::Size(n);
        }
    }
    if let Some(rest) = strip_prefix_lit(&line, "DD_EXIT:") {
        if let Some(c) = parse_i32_exec(&trim_exec(&rest)) {
            return ScriptLine::DdExit(c);
        }
    }
    if let Some(rest) = strip_prefix_lit(&line, "ERROR:") {
        return ScriptLine::Error(string_of(&trim_exec(&rest)));
    }
    if let Some(rest) = strip_prefix_lit(&line, "LOG:") {
        return ScriptLine::Log(string_of(&trim_exec(&rest)));
    }
    if let Some(f) = dd_fields_exec(&line) {
        return ScriptLine::DdProgress(f.0, string_of(&f.1), string_of(&f.2));
    }
    ScriptLine::Unknown(string_of(&line))
}

// ---------------------------------------------------------------------------
// Speeds and `dd` progress lines
// ---------------------------------------------------------------------------

/// The scale of a transfer-speed unit relative to MB/s.
#[derive(Debug, Clone, Copy, PartialEq, Eq)]
pub enum SpeedUnit {
    /// `b`: bytes per second (divide by 1024²).
    Bytes,
    /// `kb`, `kib` (divide by 1024).
    Kilo,
    /// `mb`, `mib` (as is).
    Mega,
    /// `gb`, `gib` (multiply by 1024).
    Giga,
    /// `tb`, `tib` (multiply by 1024²).
    Tera,
    /// Anything else (the speed counts as zero).
    Unknown,
}

/// A lower-cased unit without a trailing `/s` or `ps`.
pub open spec fn unit_base(l: Seq<char>) -> Seq<char> {
    if ends_with(l, "/s"@) {
        l.take(l.len() - 2)
    } else if ends_with(l, "ps"@) {
        l.take(l.len() - 2)
    } else {
        l
    }
}

pub open spec fn unit_named(b: Seq<char>) -> SpeedUnit {
    if b == "kb"@ || b == "kib"@ {
        SpeedUnit::Kilo
    } else if b == "mb"@ || b == "mib"@ {
        SpeedUnit::Mega
    } else if b == "gb"@ || b == "gib"@ {
        SpeedUnit::Giga
    } else if b == "tb"@ || b == "tib"@ {
        SpeedUnit::Tera
    } else if b == "b"@ {
        SpeedUnit::Bytes
    } else {
        SpeedUnit::Unknown
    }
}

/// The unit a speed token names: trimmed, lower-cased, `/s` or `ps`
/// removed.
pub open spec fn unit_of(unit: Seq<char>) -> SpeedUnit {
    unit_named(unit_base(lowercase_of(trim(unit))))
}

/// Whitespace around a unit token does not change the unit it names.
pub proof fn law_unit_ignores_padding(unit: Seq<char>, w1: Seq<char>, w2: Seq<char>)
    requires
        crate::text::all_ws(w1),
        crate::text::all_ws(w2),
        unit.len() > 0,
        trim(unit) == unit,
    ensures
        unit_of(w1 + unit + w2) == unit_of(unit),
{
    crate::text::lemma_trim_padded(w1, unit, w2);
}

/// Classify a speed unit token such as `"MB/s"`, `"kB/s"` or `"GiB/s"`.
pub fn speed_unit(unit_str: &str) -> (r: SpeedUnit)
    ensures
        r == unit_of(unit_str@),
        is_ascii_text(trim(unit_str@)) ==> r == unit_named(
            unit_base(trim(unit_str@).map_values(|c: char| ascii_lower(c))),
        ),
{
    let t = string_of(&trim_exec(&chars_of(unit_str)));
    let l = chars_of_string(&to_lowercase(t.as_str()));
    let slash = chars_of("/s");
    let ps = chars_of("ps");
    proof {
        reveal_strlit("/s");
        reveal_strlit("ps");
    }
    let base = if ends_with_exec(&l, &slash) || ends_with_exec(&l, &ps) {
        let b = slice_chars(&l, 0, l.len() - 2);
        assert(b@ =~= l@.take(l@.len() - 2));
        b
    } else {
        l
    };
    if is_word(&base, "kb") || is_word(&base, "kib") {
        SpeedUnit::Kilo
    } else if is_word(&base, "mb") || is_word(&base, "mib") {
        SpeedUnit::Mega
    } else if is_word(&base, "gb") || is_word(&base, "gib") {
        SpeedUnit::Giga
    } else if is_word(&base, "tb") || is_word(&base, "tib") {
        SpeedUnit::Tera
    } else if is_word(&base, "b") {
        SpeedUnit::Bytes
    } else {
        SpeedUnit::Unknown
    }
}

/// A speed value with decimal commas turned into points, trimmed.
pub open spec fn decimal_text(v: Seq<char>) -> Seq<char> {
    trim(v.map_values(|c: char| if c == ',' { '.' } else { c }))
}

/// The speed value as `f32::from_str` will read it, when it reads it.
pub fn speed_value_text(value_str: &str) -> (r: Option<String>)
    ensures
        match r {
            Some(t) => is_float_text(decimal_text(value_str@)) && t@ == decimal_text(value_str@),
            None => !is_float_text(decimal_text(value_str@)),
        },
{
    let v = chars_of(value_str);
    let mut w: Vec<char> = Vec::new();
    let mut i: usize = 0;
    while i < v.len()
        invariant
            i <= v.len(),
            w@ =~= v@.map_values(|c: char| if c == ',' { '.' } else { c }).take(i as int),
        decreases v.len() - i,
    {
        w.push(if v[i] == ',' { '.' } else { v[i] });
        i += 1;
    }
    assert(v@.map_values(|c: char| if c == ',' { '.' } else { c }).take(v.len() as int) =~= v@.map_values(
        |c: char| if c == ',' { '.' } else { c },
    ));
    let t = trim_exec(&w);
    if is_float_text_exec(&t) {
        Some(string_of(&t))
    } else {
        None
    }
}

/// A `dd status=progress` line read against the image size.
#[derive(Debug, Clone, PartialEq)]
pub struct DdProgress {
    /// Bytes written so far.
    pub bytes_written: u64,
    /// The speed value token (e.g. `"35.6"`).
    pub speed_value: String,
    /// The speed unit token (e.g. `"MB/s"`).
    pub speed_unit: String,
    /// The image size the ratio is taken against (never zero).
    pub total_bytes: u64,
}

/// Parse a single `dd status=progress` line: `None` when the line is not a
/// `dd` progress line or the image size is zero.
pub fn parse_dd_progress(line: &str, image_size: u64) -> (r: Option<DdProgress>)
    ensures
        match r {
            Some(p) => image_size > 0 && dd_fields(trim(line@)) == Some(
                (p.bytes_written, p.speed_value@, p.speed_unit@),
            ) && p.total_bytes == image_size,
            None => image_size == 0 || dd_fields(trim(line@)) is None,
        },
{
    let l = trim_exec(&chars_of(line));
    match dd_fields_exec(&l) {
        None => None,
        Some(f) => {
            if image_size == 0 {
                return None;
            }
            Some(
                DdProgress {
                    bytes_written: f.0,
                    speed_value: string_of(&f.1),
                    speed_unit: string_of(&f.2),
                    total_bytes: image_size,
                },
            )
        },
    }
}

/// A line is read the same with or without surrounding whitespace.
pub proof fn law_parse_ignores_surrounding_whitespace(raw: Seq<char>)
    ensures
        parse_line(trim(raw)) == parse_line(raw),
{
    crate::text::lemma_trim_idempotent(raw);
}

/// Every stage the helper announces by name is read back as that stage.
pub proof fn law_stage_names_round_trip(s: StageModel)
    ensures
        wire_name(s) matches Some(n) ==> stage_named(n) == s,
{
    reveal_strlit("UNMOUNTING");
    reveal_strlit("WRITING");
    reveal_strlit("SYNCING");
    reveal_strlit("REREADING");
    reveal_strlit("VERIFYING");
    reveal_strlit("DONE");
    let u = "UNMOUNTING"@;
    let w = "WRITING"@;
    let y = "SYNCING"@;
    let r = "REREADING"@;
    let v = "VERIFYING"@;
    let d = "DONE"@;
    assert(u.len() == 10 && w.len() == 7 && y.len() == 7 && r.len() == 9 && v.len() == 9 && d.len() == 4);
    assert(w[0] != y[0]);
    assert(r[0] != v[0]);
    match s {
        StageModel::Writing => assert(u != w),
        StageModel::Syncing => assert(u != y && w != y),
        StageModel::Rereading => assert(u != r && w != r && y != r),
        StageModel::Verifying => assert(u != v && w != v && y != v && r != v),
        StageModel::Done => assert(u != d && w != d && y != d && r != d && v != d),
        _ => {},
    }
}

// ---------------------------------------------------------------------------
// Writing lines, and reading them back
// ---------------------------------------------------------------------------

/// The line announcing a stage, for the stages the helper announces.
pub fn stage_line(stage: &FlashStage) -> (r: Option<String>)
    ensures
        match wire_name(stage@) {
            Some(n) => r matches Some(l) && l@ == "STAGE:"@ + n,
            None => r is None,
        },
{
    let name = match stage {
        FlashStage::Unmounting => "UNMOUNTING",
        FlashStage::Writing => "WRITING",
        FlashStage::Syncing => "SYNCING",
        FlashStage::Rereading => "REREADING",
        FlashStage::Verifying => "VERIFYING",
        FlashStage::Done => "DONE",
        _ => {
            return None;
        },
    };
    let mut v = chars_of("STAGE:");
    push_all(&mut v, &chars_of(name));
    Some(string_of(&v))
}

/// The line announcing the image size.
pub fn size_line(n: u64) -> (r: String)
    ensures
        r@ == "SIZE:"@ + decimal(n as nat),
{
    let mut v = chars_of("SIZE:");
    push_all(&mut v, &decimal_exec(n as u128));
    string_of(&v)
}

/// The line reporting bytes written and the speed (as decimal text).
pub fn progress_line(bytes: u64, speed: &str) -> (r: String)
    ensures
        r@ == "PROGRESS:"@ + decimal(bytes as nat) + seq![':'] + speed@,
{
    let mut v = chars_of("PROGRESS:");
    push_all(&mut v, &decimal_exec(bytes as u128));
    v.push(':');
    push_all(&mut v, &chars_of(speed));
    string_of(&v)
}

/// The line carrying an informational message.
pub fn log_line(msg: &str) -> (r: String)
    ensures
        r@ == "LOG:"@ + msg@,
{
    let mut v = chars_of("LOG:");
    push_all(&mut v, &chars_of(msg));
    string_of(&v)
}

/// The line carrying the terminal error.
pub fn error_line(msg: &str) -> (r: String)
    ensures
        r@ == "ERROR:"@ + msg@,
{
    let mut v = chars_of("ERROR:");
    push_all(&mut v, &chars_of(msg));
    string_of(&v)
}

proof fn reveal_prefixes()
    ensures
        "PROGRESS:"@ == seq!['P', 'R', 'O', 'G', 'R', 'E', 'S', 'S', ':'],
        "STAGE:"@ == seq!['S', 'T', 'A', 'G', 'E', ':'],
        "SIZE:"@ == seq!['S', 'I', 'Z', 'E', ':'],
        "DD_EXIT:"@ == seq!['D', 'D', '_', 'E', 'X', 'I', 'T', ':'],
        "ERROR:"@ == seq!['E', 'R', 'R', 'O', 'R', ':'],
        "LOG:"@ == seq!['L', 'O', 'G', ':'],
{
    reveal_strlit("PROGRESS:");
    reveal_strlit("STAGE:");
    reveal_strlit("SIZE:");
    reveal_strlit("DD_EXIT:");
    reveal_strlit("ERROR:");
    reveal_strlit("LOG:");
}

/// `line` starts with `p` exactly when its first characters are those of `p`.
proof fn lemma_prefix_differs(line: Seq<char>, p: Seq<char>, i: int)
    requires
        0 <= i < p.len(),
        i < line.len(),
        line[i] != p[i],
    ensures
        !starts_with(line, p),
{
    if p.len() <= line.len() {
        assert(line.take(p.len() as int)[i] == line[i]);
    }
}

/// A line `prefix + rest` without surrounding whitespace is read as is.
proof fn lemma_line_untrimmed(prefix: Seq<char>, rest: Seq<char>)
    requires
        prefix.len() > 0,
        !is_ws(prefix[0]),
        !is_ws(prefix.last()),
        trim(rest) == rest,
    ensures
        trim(prefix + rest) == prefix + rest,
        starts_with(prefix + rest, prefix),
        after(prefix + rest, prefix) == rest,
{
    let line = prefix + rest;
    lemma_trim_fixed(rest);
    assert(line[0] == prefix[0]);
    if rest.len() > 0 {
        assert(line.last() == rest.last());
    } else {
        assert(line.last() == prefix.last());
    }
    lemma_trim_fixed(line);
    assert(line.take(prefix.len() as int) =~= prefix);
    assert(line.skip(prefix.len() as int) =~= rest);
}

/// What the helper announces as a stage is read back as that stage.
pub proof fn law_stage_line_read_back(s: StageModel)
    ensures
        wire_name(s) matches Some(n) ==> parse_line("STAGE:"@ + n) == LineModel::Stage(s),
{
    if let Some(n) = wire_name(s) {
        reveal_prefixes();
        reveal_strlit("UNMOUNTING");
        reveal_strlit("WRITING");
        reveal_strlit("SYNCING");
        reveal_strlit("REREADING");
        reveal_strlit("VERIFYING");
        reveal_strlit("DONE");
        law_stage_names_round_trip(s);
        lemma_trim_fixed(n);
        let p = "STAGE:"@;
        lemma_line_untrimmed(p, n);
        let line = p + n;
        lemma_prefix_differs(line, "PROGRESS:"@, 0);
    }
}

/// The size the helper announces is read back as that size.
pub proof fn law_size_line_read_back(n: u64)
    ensures
        parse_line("SIZE:"@ + decimal(n as nat)) == LineModel::Size(n),
{
    reveal_prefixes();
    let d = decimal(n as nat);
    lemma_decimal(n as nat);
    assert(crate::text::is_digit(d[0]) && crate::text::is_digit(d.last()));
    lemma_trim_fixed(d);
    let p = "SIZE:"@;
    lemma_line_untrimmed(p, d);
    let line = p + d;
    lemma_prefix_differs(line, "PROGRESS:"@, 0);
    lemma_prefix_differs(line, "STAGE:"@, 1);
    assert(crate::text::unsigned_body(d) == d);
}

/// The fields of `<digits>:<speed>` as the reader finds them.
proof fn lemma_progress_rest(d: Seq<char>, speed: Seq<char>)
    requires
        crate::text::is_numeral(d),
        trim(speed) == speed,
    ensures
        trim(d + seq![':'] + speed) == d + seq![':'] + speed,
        find_char(d + seq![':'] + speed, ':') == Some(d.len() as int),
        (d + seq![':'] + speed).take(d.len() as int) == d,
        (d + seq![':'] + speed).skip(d.len() as int + 1) == speed,
        trim(d) == d,
{
    let rest = d + seq![':'] + speed;
    lemma_trim_fixed(speed);
    assert(rest[0] == d[0]);
    assert(crate::text::is_digit(d[0]));
    if speed.len() > 0 {
        assert(rest.last() == speed.last());
    } else {
        assert(rest.last() == ':');
    }
    lemma_trim_fixed(rest);
    lemma_find_char_facts(rest, ':');
    assert(rest[d.len() as int] == ':');
    assert forall|j: int| 0 <= j < d.len() implies rest[j] != ':' by {
        assert(rest[j] == d[j]);
        assert(crate::text::is_digit(d[j]));
    }
    assert(rest.take(d.len() as int) =~= d);
    assert(rest.skip(d.len() as int + 1) =~= speed);
    assert(crate::text::is_digit(d.last()));
    lemma_trim_fixed(d);
}

/// A progress report the helper writes (bytes written, and a speed text
/// `f32` accepts, without surrounding whitespace) is read back as written.
pub proof fn law_progress_line_read_back(bytes: u64, speed: Seq<char>)
    requires
        is_float_text(speed),
        trim(speed) == speed,
    ensures
        parse_line("PROGRESS:"@ + decimal(bytes as nat) + seq![':'] + speed) == LineModel::Progress(bytes, speed),
{
    let d = decimal(bytes as nat);
    lemma_decimal(bytes as nat);
    lemma_progress_rest(d, speed);
    let rest = d + seq![':'] + speed;
    let p = "PROGRESS:"@;
    assert(p == seq!['P', 'R', 'O', 'G', 'R', 'E', 'S', 'S', ':']) by {
        reveal_strlit("PROGRESS:");
    }
    lemma_line_untrimmed(p, rest);
    assert(p + d + seq![':'] + speed =~= p + rest);
    assert(crate::text::unsigned_body(d) == d);
    assert(progress_fields(rest) == Some((bytes, speed)));
}

/// A progress report is read back as written even with whitespace around
/// the line.
pub proof fn law_padded_progress_line_read_back(bytes: u64, speed: Seq<char>, w1: Seq<char>, w2: Seq<char>)
    requires
        is_float_text(speed),
        trim(speed) == speed,
        crate::text::all_ws(w1),
        crate::text::all_ws(w2),
    ensures
        parse_line(w1 + ("PROGRESS:"@ + decimal(bytes as nat) + seq![':'] + speed) + w2) == LineModel::Progress(
            bytes,
            speed,
        ),
{
    let d = decimal(bytes as nat);
    lemma_decimal(bytes as nat);
    lemma_progress_rest(d, speed);
    let rest = d + seq![':'] + speed;
    let p = "PROGRESS:"@;
    assert(p == seq!['P', 'R', 'O', 'G', 'R', 'E', 'S', 'S', ':']) by {
        reveal_strlit("PROGRESS:");
    }
    lemma_line_untrimmed(p, rest);
    let line = p + d + seq![':'] + speed;
    assert(line =~= p + rest);
    law_progress_line_read_back(bytes, speed);
    crate::text::lemma_trim_padded(w1, line, w2);
    law_parse_ignores_surrounding_whitespace(w1 + line + w2);
}

/// A message without surrounding whitespace written on a `LOG:` line is read
/// back unchanged.
pub proof fn law_log_line_read_back(msg: Seq<char>)
    requires
        trim(msg) == msg,
    ensures
        parse_line("LOG:"@ + msg) == LineModel::Log(msg),
{
    reveal_prefixes();
    let p = "LOG:"@;
    lemma_line_untrimmed(p, msg);
    let line = p + msg;
    lemma_prefix_differs(line, "PROGRESS:"@, 0);
    lemma_prefix_differs(line, "STAGE:"@, 0);
    lemma_prefix_differs(line, "SIZE:"@, 0);
    lemma_prefix_differs(line, "DD_EXIT:"@, 0);
    lemma_prefix_differs(line, "ERROR:"@, 0);
}

/// A message without surrounding whitespace written on an `ERROR:` line is
/// read back unchanged.
pub proof fn law_error_line_read_back(msg: Seq<char>)
    requires
        trim(msg) == msg,
    ensures
        parse_line("ERROR:"@ + msg) == LineModel::Error(msg),
{
    reveal_prefixes();
    let p = "ERROR:"@;
    lemma_line_untrimmed(p, msg);
    let line = p + msg;
    lemma_prefix_differs(line, "PROGRESS:"@, 0);
    lemma_prefix_differs(line, "STAGE:"@, 0);
    lemma_prefix_differs(line, "SIZE:"@, 0);
    lemma_prefix_differs(line, "DD_EXIT:"@, 0);
}

} // verus!
