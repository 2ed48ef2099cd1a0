//! What the terminal screens show, decided from the state alone: the image
//! field with its caret, the drive list's heading and each drive's status,
//! the step breadcrumbs, the storage warning, the tone of a log line, the
//! visible tail of the log, the contents list's position, the confirmation
//! texts, and where a centred dialog sits.  The front-end only lays these
//! out and colours them.
use vstd::prelude::*;
use crate::external::{ascii_upper, is_ascii_text, lowercase_of, to_lowercase, uppercase_of, to_uppercase};
use crate::text::ascii_lower;
use crate::file_explorer::texts_view;
use crate::text::{
    chars_of, chars_of_string, contains, contains_exec, decimal, decimal_exec, eq_chars, push_all, slice_chars,
    string_of,
};
use crate::tui::{DriveInfo, DriveModel, drive_refusal, AppModel};

verus! {

// ---------------------------------------------------------------------------
// The image field
// ---------------------------------------------------------------------------

/// The image field as shown: while editing, a bar `│` stands before the
/// character under the cursor (after the last character when the cursor is
/// at the end); otherwise the text as typed.
pub open spec fn field_text(input: Seq<char>, cursor: int, editing: bool) -> Seq<char> {
    if editing && cursor <= input.len() {
        input.take(cursor) + seq!['│'] + input.skip(cursor)
    } else {
        input
    }
}

/// The image field as shown (see `field_text`).
pub fn field_display(input: &str, cursor: usize, editing: bool) -> (r: String)
    ensures
        r@ == field_text(input@, cursor as int, editing),
{
    let chars = chars_of(input);
    if editing && cursor <= chars.len() {
        let mut out = slice_chars(&chars, 0, cursor);
        out.push('│');
        let rest = slice_chars(&chars, cursor, chars.len());
        push_all(&mut out, &rest);
        string_of(&out)
    } else {
        string_of(&chars)
    }
}

/// While editing, the bar sits exactly at the cursor and taking it out gives
/// back the typed text.
pub proof fn law_field_bar_marks_cursor(input: Seq<char>, cursor: int)
    requires
        0 <= cursor <= input.len(),
    ensures
        field_text(input, cursor, true).len() == input.len() + 1,
        field_text(input, cursor, true)[cursor] == '│',
        field_text(input, cursor, true).remove(cursor) == input,
        field_text(input, cursor, false) == input,
{
    let f = field_text(input, cursor, true);
    assert(f.remove(cursor) =~= input);
}

// ---------------------------------------------------------------------------
// Drives
// ---------------------------------------------------------------------------

/// Whether a drive can be flashed, and why not.
#[derive(Debug, Clone, Copy, PartialEq, Eq, Structural)]
pub enum DriveStatus {
    /// The drive holds the running system.
    System,
    /// The drive cannot be written.
    ReadOnly,
    Available,
}

/// A drive's status: a system drive is reported as such even when it is
/// also read-only.
pub open spec fn status_of(d: DriveModel) -> DriveStatus {
    if d.is_system {
        DriveStatus::System
    } else if d.is_read_only {
        DriveStatus::ReadOnly
    } else {
        DriveStatus::Available
    }
}

/// A drive's status (see `status_of`).
pub fn drive_status(d: &DriveInfo) -> (r: DriveStatus)
    ensures
        r == status_of(d@),
{
    if d.is_system {
        DriveStatus::System
    } else if d.is_read_only {
        DriveStatus::ReadOnly
    } else {
        DriveStatus::Available
    }
}

/// The icon shown before a drive in the list.
pub open spec fn status_icon_text(s: DriveStatus) -> Seq<char> {
    match s {
        DriveStatus::System => "🔒"@,
        DriveStatus::ReadOnly => "🚫"@,
        DriveStatus::Available => "💾"@,
    }
}

/// The icon shown before a drive in the list (see `status_icon_text`).
pub fn status_icon(s: DriveStatus) -> (r: &'static str)
    ensures
        r@ == status_icon_text(s),
{
    match s {
        DriveStatus::System => "🔒",
        DriveStatus::ReadOnly => "🚫",
        DriveStatus::Available => "💾",
    }
}

/// The marks before a drive in the list: an arrow for the row under the
/// cursor, and a ticked box for the drive chosen as target (the drive whose
/// device path is the chosen one's).
pub open spec fn row_marks_text(at_cursor: bool, chosen: Option<DriveModel>, d: DriveModel) -> (Seq<char>, Seq<char>) {
    (
        if at_cursor { " ▶ "@ } else { "   "@ },
        if chosen is Some && chosen->0.device_path == d.device_path { "☑ "@ } else { "☐ "@ },
    )
}

/// The marks before a drive in the list (see `row_marks_text`).
pub fn row_marks(at_cursor: bool, chosen: &Option<DriveInfo>, d: &DriveInfo) -> (r: (&'static str, &'static str))
    ensures
        (r.0@, r.1@) == row_marks_text(
            at_cursor,
            match chosen {
                Some(c) => Some(c@),
                None => None,
            },
            d@,
        ),
{
    let arrow = if at_cursor { " ▶ " } else { "   " };
    let ticked = match chosen {
        Some(c) => eq_chars(&chars_of(c.device_path.as_str()), &chars_of(d.device_path.as_str())),
        None => false,
    };
    (arrow, if ticked { "☑ " } else { "☐ " })
}

/// The line in the drive details panel that says whether the drive can be
/// flashed.
pub open spec fn status_message_text(s: DriveStatus) -> Seq<char> {
    match s {
        DriveStatus::System => "⚠ System drive — cannot flash"@,
        DriveStatus::ReadOnly => "⚠ Read-only — cannot flash"@,
        DriveStatus::Available => "✓ Available for flashing"@,
    }
}

/// The details panel's verdict on a drive (see `status_message_text`).
pub fn status_message(s: DriveStatus) -> (r: &'static str)
    ensures
        r@ == status_message_text(s),
{
    match s {
        DriveStatus::System => "⚠ System drive — cannot flash",
        DriveStatus::ReadOnly => "⚠ Read-only — cannot flash",
        DriveStatus::Available => "✓ Available for flashing",
    }
}

/// The drive list shows a drive as available exactly when confirming it
/// would be accepted.
pub proof fn law_available_means_accepted(m: AppModel)
    requires
        0 <= m.drive_cursor < m.drives.len(),
    ensures
        (status_of(m.drives[m.drive_cursor]) == DriveStatus::Available) <==> (drive_refusal(m) is None),
{
}

/// The heading of the drive list.
pub open spec fn drive_list_heading(loading: bool, count: nat) -> Seq<char> {
    if loading {
        " ⟳  Scanning for drives… "@
    } else if count == 0 {
        " 💾  No drives found "@
    } else {
        " 💾  USB Drives ("@ + decimal(count) + ") "@
    }
}

/// The heading of the drive list (see `drive_list_heading`).
pub fn drive_list_title(loading: bool, count: usize) -> (r: String)
    ensures
        r@ == drive_list_heading(loading, count as nat),
{
    if loading {
        string_of(&chars_of(" ⟳  Scanning for drives… "))
    } else if count == 0 {
        string_of(&chars_of(" 💾  No drives found "))
    } else {
        let mut out = chars_of(" 💾  USB Drives (");
        push_all(&mut out, &decimal_exec(count as u128));
        push_all(&mut out, &chars_of(") "));
        string_of(&out)
    }
}

/// A drive chosen as target can be written: it is neither a system drive
/// nor read-only.  No drive is not ready.
pub open spec fn target_ready(d: Option<DriveModel>) -> bool {
    match d {
        Some(d) => !d.is_system && !d.is_read_only,
        None => false,
    }
}

pub open spec fn drive_opt_view(d: Option<DriveInfo>) -> Option<DriveModel> {
    match d {
        Some(d) => Some(d@),
        None => None,
    }
}

/// Whether the chosen target can be written (see `target_ready`).
pub fn drive_ready(d: &Option<DriveInfo>) -> (r: bool)
    ensures
        r == target_ready(drive_opt_view(*d)),
{
    match d {
        Some(d) => !d.is_system && !d.is_read_only,
        None => false,
    }
}

/// How the confirmation dialog names the target: `name (device)`, or a dash.
pub open spec fn target_text(d: Option<DriveModel>) -> Seq<char> {
    match d {
        Some(d) => d.name + " ("@ + d.device_path + ")"@,
        None => "—"@,
    }
}

/// How the confirmation dialog names the target (see `target_text`).
pub fn target_description(d: &Option<DriveInfo>) -> (r: String)
    ensures
        r@ == target_text(drive_opt_view(*d)),
{
    match d {
        Some(d) => {
            let mut out = chars_of_string(&d.name);
            push_all(&mut out, &chars_of(" ("));
            push_all(&mut out, &chars_of_string(&d.device_path));
            push_all(&mut out, &chars_of(")"));
            string_of(&out)
        },
        None => string_of(&chars_of("—")),
    }
}

/// The second half of the success banner: names the written drive, or is
/// empty.
pub open spec fn ready_text(d: Option<DriveModel>) -> Seq<char> {
    match d {
        Some(d) => "  Your USB drive ("@ + d.name + ") is ready."@,
        None => Seq::empty(),
    }
}

/// The second half of the success banner (see `ready_text`).
pub fn ready_banner(d: &Option<DriveInfo>) -> (r: String)
    ensures
        r@ == ready_text(drive_opt_view(*d)),
{
    match d {
        Some(d) => {
            let mut out = chars_of("  Your USB drive (");
            push_all(&mut out, &chars_of_string(&d.name));
            push_all(&mut out, &chars_of(") is ready."));
            string_of(&out)
        },
        None => String::new(),
    }
}

/// The storage overview warns when the image is larger than a drive of known
/// (non-zero) size.
pub fn image_exceeds_drive(image_bytes: u64, drive_bytes: u64) -> (r: bool)
    ensures
        r == (image_bytes > drive_bytes && drive_bytes > 0),
{
    image_bytes > drive_bytes && drive_bytes > 0
}

// ---------------------------------------------------------------------------
// Breadcrumbs
// ---------------------------------------------------------------------------

/// Where a step stands relative to the active one.
#[derive(Debug, Clone, Copy, PartialEq, Eq, Structural)]
pub enum StepState {
    Done,
    Active,
    Upcoming,
}

/// The names of the three steps, numbered from 1.
pub open spec fn step_names() -> Seq<Seq<char>> {
    seq!["Select Image"@, "Select Drive"@, "Flash"@]
}

pub open spec fn step_state(num: int, active: int) -> StepState {
    if num == active {
        StepState::Active
    } else if num < active {
        StepState::Done
    } else {
        StepState::Upcoming
    }
}

/// A step's label: a tick for a finished step, else its number, then the
/// name.
pub open spec fn step_label(num: nat, name: Seq<char>, active: nat) -> Seq<char> {
    (if num < active { "✓"@ } else { decimal(num) }) + ". "@ + name
}

fn step(num: usize, name: &str, active: usize) -> (r: (StepState, String))
    ensures
        r.0 == step_state(num as int, active as int),
        r.1@ == step_label(num as nat, name@, active as nat),
{
    let state = if num == active {
        StepState::Active
    } else if num < active {
        StepState::Done
    } else {
        StepState::Upcoming
    };
    let mut out = if num < active {
        chars_of("✓")
    } else {
        decimal_exec(num as u128)
    };
    push_all(&mut out, &chars_of(". "));
    push_all(&mut out, &chars_of(name));
    (state, string_of(&out))
}

/// The breadcrumb row for the active step `active` (1 to 3): each step
/// with its state and label, in order.
pub fn breadcrumbs(active: usize) -> (r: Vec<(StepState, String)>)
    ensures
        r@.len() == 3,
        forall|i: int|
            0 <= i < 3 ==> (#[trigger] r@[i]).0 == step_state(i + 1, active as int) && r@[i].1@ == step_label(
                (i + 1) as nat,
                step_names()[i],
                active as nat,
            ),
{
    let mut r: Vec<(StepState, String)> = Vec::new();
    r.push(step(1, "Select Image", active));
    r.push(step(2, "Select Drive", active));
    r.push(step(3, "Flash", active));
    r
}

/// Exactly one step is active when the active step is one of the three, and
/// the steps before it are done.
pub proof fn law_one_active_step(active: int)
    requires
        1 <= active <= 3,
    ensures
        forall|i: int, j: int|
            1 <= i <= 3 && 1 <= j <= 3 && step_state(i, active) == StepState::Active && step_state(j, active)
                == StepState::Active ==> i == j,
        forall|i: int| 1 <= i < active ==> step_state(i, active) == StepState::Done,
{
}

// ---------------------------------------------------------------------------
// The flash log
// ---------------------------------------------------------------------------

/// How a log line is coloured.
#[derive(Debug, Clone, Copy, PartialEq, Eq, Structural)]
pub enum LogTone {
    /// The line mentions an error.
    Error,
    /// The line reports completion.
    Success,
    /// The line is all capitals (a heading).
    Heading,
    Plain,
}

/// A line mentioning `error` (in any case) is an error; else one mentioning
/// `complete` or `done` is a success; else a non-empty line that upper-casing
/// leaves unchanged is a heading.
pub open spec fn tone_of(l: Seq<char>) -> LogTone {
    tone_with(lowercase_of(l), uppercase_of(l), l)
}

/// The tone of line `l` given its lower-cased and upper-cased forms.
pub open spec fn tone_with(lower: Seq<char>, upper: Seq<char>, l: Seq<char>) -> LogTone {
    if contains(lower, "error"@) {
        LogTone::Error
    } else if contains(lower, "complete"@) || contains(lower, "done"@) {
        LogTone::Success
    } else if upper == l && l.len() > 0 {
        LogTone::Heading
    } else {
        LogTone::Plain
    }
}

/// How a log line is coloured (see `tone_of`).
pub fn log_tone(line: &str) -> (r: LogTone)
    ensures
        r == tone_of(line@),
        is_ascii_text(line@) ==> r == tone_with(
            line@.map_values(|c: char| ascii_lower(c)),
            line@.map_values(|c: char| ascii_upper(c)),
            line@,
        ),
{
    let lower = chars_of_string(&to_lowercase(line));
    if contains_exec(&lower, &chars_of("error")) {
        LogTone::Error
    } else if contains_exec(&lower, &chars_of("complete")) || contains_exec(&lower, &chars_of("done")) {
        LogTone::Success
    } else {
        let l = chars_of(line);
        let upper = chars_of_string(&to_uppercase(line));
        if eq_chars(&upper, &l) && l.len() > 0 {
            LogTone::Heading
        } else {
            LogTone::Plain
        }
    }
}

/// The last `height` lines of the log, oldest first.
pub open spec fn tail_of(log: Seq<Seq<char>>, height: int) -> Seq<Seq<char>> {
    if log.len() > height {
        log.skip(log.len() - height)
    } else {
        log
    }
}

/// The part of the log that fits a panel `height` lines high (see
/// `tail_of`).
pub fn log_tail(log: &Vec<String>, height: usize) -> (r: Vec<String>)
    ensures
        texts_view(r@) == tail_of(texts_view(log@), height as int),
{
    let start: usize = if log.len() > height {
        log.len() - height
    } else {
        0
    };
    let mut r: Vec<String> = Vec::new();
    let mut i = start;
    while i < log.len()
        invariant
            start <= i <= log.len(),
            texts_view(r@) =~= texts_view(log@).subrange(start as int, i as int),
        decreases log.len() - i,
    {
        let ghost r0 = texts_view(r@);
        r.push(log[i].clone());
        assert(texts_view(r@) =~= r0.push(log@[i as int]@));
        i += 1;
    }
    r
}

// ---------------------------------------------------------------------------
// The contents list
// ---------------------------------------------------------------------------

/// The position shown in the contents list's title when the list is longer
/// than the panel: ` (scroll/count) `, the scroll capped at the count.
pub open spec fn scroll_info_text(scroll: nat, count: nat, visible: nat) -> Seq<char> {
    if count > visible {
        " ("@ + decimal(if scroll < count { scroll } else { count }) + "/"@ + decimal(count) + ") "@
    } else {
        Seq::empty()
    }
}

/// The contents list's position (see `scroll_info_text`).
pub fn contents_scroll_info(scroll: usize, count: usize, visible: usize) -> (r: String)
    ensures
        r@ == scroll_info_text(scroll as nat, count as nat, visible as nat),
{
    if count > visible {
        let shown = if scroll < count {
            scroll
        } else {
            count
        };
        let mut out = chars_of(" (");
        push_all(&mut out, &decimal_exec(shown as u128));
        push_all(&mut out, &chars_of("/"));
        push_all(&mut out, &decimal_exec(count as u128));
        push_all(&mut out, &chars_of(") "));
        string_of(&out)
    } else {
        String::new()
    }
}

// ---------------------------------------------------------------------------
// Dialog placement
// ---------------------------------------------------------------------------

/// A rectangle of terminal cells.
#[derive(Debug, Clone, Copy, PartialEq, Eq, Structural)]
pub struct Area {
    pub x: u16,
    pub y: u16,
    pub width: u16,
    pub height: u16,
}

/// An area that lies on the screen: its right and bottom edges fit a `u16`.
pub open spec fn area_ok(r: Area) -> bool {
    r.x + r.width <= u16::MAX && r.y + r.height <= u16::MAX
}

/// A `width` × `height` box centred in `r`, shrunk to `r` where it is
/// larger.
pub open spec fn centred(r: Area, width: u16, height: u16) -> Area {
    Area {
        x: (r.x + (if r.width > width { r.width - width } else { 0 }) / 2) as u16,
        y: (r.y + (if r.height > height { r.height - height } else { 0 }) / 2) as u16,
        width: if width < r.width { width } else { r.width },
        height: if height < r.height { height } else { r.height },
    }
}

/// Centre a dialog in `r` (see `centred`).
pub fn centred_area(r: Area, width: u16, height: u16) -> (c: Area)
    requires
        area_ok(r),
    ensures
        c == centred(r, width, height),
{
    Area {
        x: r.x + r.width.saturating_sub(width) / 2,
        y: r.y + r.height.saturating_sub(height) / 2,
        width: if width < r.width { width } else { r.width },
        height: if height < r.height { height } else { r.height },
    }
}

/// A centred dialog lies inside the area it is centred in.
pub proof fn law_centred_dialog_fits(r: Area, width: u16, height: u16)
    requires
        area_ok(r),
    ensures
        r.x <= centred(r, width, height).x,
        centred(r, width, height).x + centred(r, width, height).width <= r.x + r.width,
        r.y <= centred(r, width, height).y,
        centred(r, width, height).y + centred(r, width, height).height <= r.y + r.height,
{
}

} // verus!
