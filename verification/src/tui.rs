//! The terminal front-end as a state machine.
//!
//! Every screen of the terminal UI and every key press on it is decided here.
//! What needs the outside world (reading a directory, probing the image file,
//! detecting drives, running the flash, scanning the written stick) is asked
//! for through `request`; the front-end performs it and hands the result back
//! through the matching method (`image_checked`, `drives_detected`,
//! `apply_flash_event`, `usb_scanned`, or the browser's `reload`).
use vstd::prelude::*;
use crate::drive_detection::{UsbInfo, UsbModel};
use crate::external::{file_name, path_file_name};
use crate::file_explorer::{
    ExplorerModel, ExplorerOutcome, FileExplorer, OutcomeModel, explorer_step, load_entries, texts_view, lex_lt,
    lex_less, lemma_lex_irrefl, lemma_lex_trans,
};
use crate::keys::{Key, KeyPress};
use crate::text::{
    chars_of, chars_of_string, push_all, string_of, trim, trim_exec, words, split_ws, lines, lines_exec, views,
    starts_with, starts_with_exec, eq_chars,
};

verus! {

// ---------------------------------------------------------------------------
// Screens, modes and the values they show
// ---------------------------------------------------------------------------

/// The active screen.
#[derive(Debug, Clone, Copy, PartialEq, Eq, Structural)]
pub enum AppScreen {
    /// Type (or paste) the path of an OS image.
    SelectImage,
    /// Pick the image in the file browser.
    BrowseImage,
    /// Choose a drive from the detected list.
    SelectDrive,
    /// Overview of the chosen drive.
    DriveInfo,
    /// Confirmation before writing.
    ConfirmFlash,
    /// The flash is running.
    Flashing,
    /// The flash is done; the written stick's contents are shown.
    Complete,
    /// A fatal error is shown.
    Error,
}

impl Default for AppScreen {
    fn default() -> (r: AppScreen)
        ensures
            r == AppScreen::SelectImage,
    {
        AppScreen::SelectImage
    }
}

/// Whether key presses go into the image-path field.
#[derive(Debug, Clone, Copy, PartialEq, Eq, Structural)]
pub enum InputMode {
    /// Normal navigation.
    Normal,
    /// Typing into the image-path field.
    Editing,
}

impl Default for InputMode {
    fn default() -> (r: InputMode)
        ensures
            r == InputMode::Normal,
    {
        InputMode::Normal
    }
}

/// One entry of the written stick's contents.
#[derive(Debug)]
pub struct UsbEntry {
    pub name: String,
    pub size_bytes: u64,
    pub is_dir: bool,
    /// Nesting depth for the tree display (0 = top level).
    pub depth: usize,
}

/// A stick entry as plain values.
pub struct UsbEntryModel {
    pub name: Seq<char>,
    pub size_bytes: u64,
    pub is_dir: bool,
    pub depth: usize,
}

impl View for UsbEntry {
    type V = UsbEntryModel;

    open spec fn view(&self) -> UsbEntryModel {
        UsbEntryModel { name: self.name@, size_bytes: self.size_bytes, is_dir: self.is_dir, depth: self.depth }
    }
}

impl Clone for UsbEntry {
    fn clone(&self) -> (r: UsbEntry)
        ensures
            r@ == self@,
    {
        UsbEntry { name: self.name.clone(), size_bytes: self.size_bytes, is_dir: self.is_dir, depth: self.depth }
    }
}

/// The image chosen for flashing.
#[derive(Debug)]
pub struct ImageInfo {
    /// The path as typed (trimmed) or picked.
    pub path: String,
    /// The file name of the path.
    pub name: String,
    pub size_bytes: u64,
}

/// An image as plain values.
pub struct ImageModel {
    pub path: Seq<char>,
    pub name: Seq<char>,
    pub size_bytes: u64,
}

impl View for ImageInfo {
    type V = ImageModel;

    open spec fn view(&self) -> ImageModel {
        ImageModel { path: self.path@, name: self.name@, size_bytes: self.size_bytes }
    }
}

/// A drive that can be chosen as the flash target.
#[derive(Debug)]
pub struct DriveInfo {
    /// Display name.
    pub name: String,
    /// Raw device path (e.g. `/dev/sdb`).
    pub device_path: String,
    /// Where the drive is mounted, if anywhere.
    pub mount_point: String,
    pub size_bytes: u64,
    /// The drive holds the running system.
    pub is_system: bool,
    pub is_read_only: bool,
    /// The USB device the drive belongs to, when known.
    pub usb_info: Option<UsbInfo>,
}

/// A drive as plain values.
pub struct DriveModel {
    pub name: Seq<char>,
    pub device_path: Seq<char>,
    pub mount_point: Seq<char>,
    pub size_bytes: u64,
    pub is_system: bool,
    pub is_read_only: bool,
    pub usb_info: Option<UsbModel>,
}

impl View for DriveInfo {
    type V = DriveModel;

    open spec fn view(&self) -> DriveModel {
        DriveModel {
            name: self.name@,
            device_path: self.device_path@,
            mount_point: self.mount_point@,
            size_bytes: self.size_bytes,
            is_system: self.is_system,
            is_read_only: self.is_read_only,
            usb_info: match self.usb_info {
                Some(u) => Some(u@),
                None => None,
            },
        }
    }
}

impl Clone for DriveInfo {
    fn clone(&self) -> (r: DriveInfo)
        ensures
            r@ == self@,
    {
        DriveInfo {
            name: self.name.clone(),
            device_path: self.device_path.clone(),
            mount_point: self.mount_point.clone(),
            size_bytes: self.size_bytes,
            is_system: self.is_system,
            is_read_only: self.is_read_only,
            usb_info: match &self.usb_info {
                Some(u) => Some(u.clone()),
                None => None,
            },
        }
    }
}

/// What the front-end is asked to do after a step of the state machine.
#[derive(Debug, Clone, Copy, PartialEq, Eq, Structural)]
pub enum Request {
    /// Detect the drives and hand them to `drives_detected`.
    DetectDrives,
    /// Probe the file named by the trimmed image field and hand the result
    /// to `image_checked`.
    CheckImage,
    /// Start writing the selected image to the selected drive.
    StartFlash,
    /// Signal the running flash to stop.
    CancelFlash,
    /// List the browser's starting directory and hand it to the browser.
    OpenBrowser,
    /// List the browser's `current_dir` and hand it to its `reload`.
    ListDirectory,
    /// Find and walk the written drive's mount point and hand the result to
    /// `usb_scanned`.
    ScanUsb,
}

/// What probing the image file found.
pub struct ImageProbe {
    pub exists: bool,
    pub is_file: bool,
    pub size_bytes: u64,
}

/// A message from the running flash (progress ratios and speeds are kept by
/// the front-end).
pub enum FlashEvent {
    /// Bytes written so far.
    Progress(u64),
    /// A stage or status label.
    Stage(String),
    /// An informational line.
    Log(String),
    Completed,
    Failed(String),
}

/// The longest log kept on the flashing screen.
pub const MAX_LOG: usize = 200;

/// The extensions the image browser offers.
pub open spec fn image_extensions() -> Seq<Seq<char>> {
    seq!["img"@, "iso"@, "dmg"@, "zip"@, "gz"@, "xz"@, "raw"@]
}

// ---------------------------------------------------------------------------
// The application state
// ---------------------------------------------------------------------------

/// The terminal UI's state.
pub struct App {
    pub screen: AppScreen,
    /// Text typed into the image-path field.
    pub image_input: String,
    /// Cursor position in `image_input`, in characters.
    pub image_cursor: usize,
    pub input_mode: InputMode,
    /// The validated image, once confirmed.
    pub selected_image: Option<ImageInfo>,
    /// The detected drives.
    pub available_drives: Vec<DriveInfo>,
    /// Index of the highlighted drive.
    pub drive_cursor: usize,
    /// The drive confirmed as target.
    pub selected_drive: Option<DriveInfo>,
    /// Drive detection is running.
    pub drives_loading: bool,
    /// Bytes written so far.
    pub flash_bytes: u64,
    /// Stage label of the running flash.
    pub flash_stage: String,
    /// Recent log lines of the running flash (at most `MAX_LOG`).
    pub flash_log: Vec<String>,
    /// Contents of the written stick.
    pub usb_contents: Vec<UsbEntry>,
    /// Scroll offset of the contents list.
    pub contents_scroll: usize,
    /// Message of the error screen.
    pub error_message: String,
    /// Frame counter for animations.
    pub tick_count: u64,
    /// The user asked to quit.
    pub should_quit: bool,
    /// The image browser.
    pub file_explorer: FileExplorer,
    /// Work asked of the front-end by the last step.
    pub request: Option<Request>,
}

/// The application state as plain values.
pub struct AppModel {
    pub screen: AppScreen,
    pub input: Seq<char>,
    pub cursor: int,
    pub mode: InputMode,
    pub image: Option<ImageModel>,
    pub drives: Seq<DriveModel>,
    pub drive_cursor: int,
    pub drive: Option<DriveModel>,
    pub drives_loading: bool,
    pub flash_bytes: u64,
    pub stage: Seq<char>,
    pub log: Seq<Seq<char>>,
    pub usb: Seq<UsbEntryModel>,
    pub scroll: int,
    pub error: Seq<char>,
    pub tick: u64,
    pub quit: bool,
    pub explorer: ExplorerModel,
    pub request: Option<Request>,
}

pub open spec fn drives_view(s: Seq<DriveInfo>) -> Seq<DriveModel> {
    s.map_values(|d: DriveInfo| d@)
}

pub open spec fn usb_view(s: Seq<UsbEntry>) -> Seq<UsbEntryModel> {
    s.map_values(|e: UsbEntry| e@)
}

impl View for App {
    type V = AppModel;

    open spec fn view(&self) -> AppModel {
        AppModel {
            screen: self.screen,
            input: self.image_input@,
            cursor: self.image_cursor as int,
            mode: self.input_mode,
            image: match self.selected_image {
                Some(i) => Some(i@),
                None => None,
            },
            drives: drives_view(self.available_drives@),
            drive_cursor: self.drive_cursor as int,
            drive: match self.selected_drive {
                Some(d) => Some(d@),
                None => None,
            },
            drives_loading: self.drives_loading,
            flash_bytes: self.flash_bytes,
            stage: self.flash_stage@,
            log: texts_view(self.flash_log@),
            usb: usb_view(self.usb_contents@),
            scroll: self.contents_scroll as int,
            error: self.error_message@,
            tick: self.tick_count,
            quit: self.should_quit,
            explorer: self.file_explorer@,
            request: self.request,
        }
    }
}

/// The image browser of a fresh application: no directory yet, the image
/// extensions as filter.
pub open spec fn initial_explorer() -> ExplorerModel {
    ExplorerModel {
        current_dir: Seq::empty(),
        entries: Seq::empty(),
        cursor: 0,
        scroll_offset: 0,
        filter: image_extensions(),
        show_hidden: false,
        status: Seq::empty(),
        awaiting: None,
    }
}

/// A fresh application: the image-path field, in editing mode.
pub open spec fn initial_app() -> AppModel {
    AppModel {
        screen: AppScreen::SelectImage,
        input: Seq::empty(),
        cursor: 0,
        mode: InputMode::Editing,
        image: None,
        drives: Seq::empty(),
        drive_cursor: 0,
        drive: None,
        drives_loading: false,
        flash_bytes: 0,
        stage: "Initialising…"@,
        log: Seq::empty(),
        usb: Seq::empty(),
        scroll: 0,
        error: Seq::empty(),
        tick: 0,
        quit: false,
        explorer: initial_explorer(),
        request: None,
    }
}

/// The typing cursor stands within the field, and the field can grow.
pub open spec fn input_ok(m: AppModel) -> bool {
    0 <= m.cursor <= m.input.len() && m.input.len() < usize::MAX
}

/// What a key press needs of the image field: room for one more character
/// and for the cursor to move on, and, for the keys that erase while
/// typing, the cursor within the text (erasing past its end fails).
pub open spec fn key_ok(m: AppModel, k: KeyPress) -> bool {
    &&& 0 <= m.cursor < usize::MAX
    &&& m.input.len() < usize::MAX
    &&& (m.screen == AppScreen::SelectImage && m.mode == InputMode::Editing && (k.key == Key::Backspace || k.key
        == Key::Delete)) ==> m.cursor <= m.input.len()
}

// ---------------------------------------------------------------------------
// Transitions
// ---------------------------------------------------------------------------

pub open spec fn quitting(m: AppModel) -> AppModel {
    AppModel { quit: true, ..m }
}

pub open spec fn cancel_message() -> Seq<char> {
    "Flash operation cancelled by user."@
}

/// The running flash is told to stop and the error screen says so.
pub open spec fn flash_cancelled(m: AppModel) -> AppModel {
    AppModel { request: Some(Request::CancelFlash), error: cancel_message(), screen: AppScreen::Error, ..m }
}

pub open spec fn browser_opened(m: AppModel) -> AppModel {
    AppModel { screen: AppScreen::BrowseImage, request: Some(Request::OpenBrowser), ..m }
}

/// `c` inserted at the cursor (at the end when the cursor is past it).
pub open spec fn char_inserted(m: AppModel, c: char) -> AppModel {
    let at = if m.cursor < m.input.len() { m.cursor } else { m.input.len() as int };
    AppModel { input: m.input.insert(at, c), cursor: m.cursor + 1, ..m }
}

/// The character before the cursor removed.
pub open spec fn char_erased(m: AppModel) -> AppModel {
    if m.cursor == 0 {
        m
    } else {
        AppModel { input: m.input.remove(m.cursor - 1), cursor: m.cursor - 1, ..m }
    }
}

pub open spec fn typing_left(m: AppModel) -> AppModel {
    AppModel { cursor: if m.cursor > 0 { m.cursor - 1 } else { m.cursor }, ..m }
}

pub open spec fn typing_right(m: AppModel) -> AppModel {
    AppModel { cursor: if m.cursor < m.input.len() { m.cursor + 1 } else { m.cursor }, ..m }
}

/// Drive detection (re)started: the list is emptied until it arrives.
pub open spec fn detecting(m: AppModel) -> AppModel {
    AppModel {
        drives_loading: true,
        drives: Seq::empty(),
        drive_cursor: 0,
        request: Some(Request::DetectDrives),
        ..m
    }
}

pub open spec fn drive_cursor_up(m: AppModel) -> AppModel {
    AppModel { drive_cursor: if m.drive_cursor > 0 { m.drive_cursor - 1 } else { m.drive_cursor }, ..m }
}

pub open spec fn drive_cursor_down(m: AppModel) -> AppModel {
    AppModel {
        drive_cursor: if m.drives.len() > 0 && m.drive_cursor < m.drives.len() - 1 {
            m.drive_cursor + 1
        } else {
            m.drive_cursor
        },
        ..m
    }
}

pub open spec fn contents_scrolled_up(m: AppModel) -> AppModel {
    AppModel { scroll: if m.scroll > 0 { m.scroll - 1 } else { m.scroll }, ..m }
}

pub open spec fn contents_scrolled_down(m: AppModel) -> AppModel {
    AppModel {
        scroll: if m.usb.len() > 0 && m.scroll < m.usb.len() - 1 {
            m.scroll + 1
        } else {
            m.scroll
        },
        ..m
    }
}

/// The error screen with `msg`.
pub open spec fn failed_with(m: AppModel, msg: Seq<char>) -> AppModel {
    AppModel { error: msg, screen: AppScreen::Error, ..m }
}

/// Going back one step, where that means something.
pub open spec fn gone_back(m: AppModel) -> AppModel {
    match m.screen {
        AppScreen::SelectDrive => AppModel { screen: AppScreen::SelectImage, mode: InputMode::Editing, ..m },
        AppScreen::DriveInfo => AppModel { screen: AppScreen::SelectDrive, ..m },
        AppScreen::ConfirmFlash => AppModel { screen: AppScreen::DriveInfo, ..m },
        _ => m,
    }
}

/// Why the highlighted drive cannot be the target, if it cannot.
pub open spec fn drive_refusal(m: AppModel) -> Option<Seq<char>> {
    if m.drive_cursor >= m.drives.len() {
        Some("No drive selected."@)
    } else if m.drives[m.drive_cursor].is_system {
        Some(m.drives[m.drive_cursor].name + " is a system drive and cannot be used as a flash target."@)
    } else if m.drives[m.drive_cursor].is_read_only {
        Some(m.drives[m.drive_cursor].name + " is read-only."@)
    } else {
        None
    }
}

/// The highlighted drive confirmed (see `drive_refusal` for when it is not).
pub open spec fn drive_confirmed(m: AppModel) -> AppModel {
    match drive_refusal(m) {
        Some(msg) => failed_with(m, msg),
        None => AppModel { drive: Some(m.drives[m.drive_cursor]), screen: AppScreen::DriveInfo, ..m },
    }
}

/// Why the flash cannot start, if it cannot.
pub open spec fn flash_refusal(m: AppModel) -> Option<Seq<char>> {
    if m.image is None {
        Some("No image selected."@)
    } else if m.drive is None {
        Some("No drive selected."@)
    } else {
        None
    }
}

/// The flash started: its progress is reset and the front-end starts it.
pub open spec fn flash_begun(m: AppModel) -> AppModel {
    match flash_refusal(m) {
        Some(msg) => failed_with(m, msg),
        None => AppModel {
            flash_bytes: 0,
            stage: "Starting…"@,
            log: Seq::empty(),
            request: Some(Request::StartFlash),
            screen: AppScreen::Flashing,
            ..m
        },
    }
}

/// The name recorded for an image path: its file name, or `Unknown`.
pub open spec fn image_name(path: Seq<char>) -> Seq<char> {
    match path_file_name(path) {
        Some(n) => n,
        None => "Unknown"@,
    }
}

/// Why the probed image cannot be used, if it cannot.
pub open spec fn image_refusal(m: AppModel, exists: bool, is_file: bool, size_bytes: u64) -> Option<Seq<char>> {
    if !exists {
        Some("File not found: "@ + trim(m.input))
    } else if !is_file {
        Some("Not a file: "@ + trim(m.input))
    } else if size_bytes == 0 {
        Some("Image file appears to be empty."@)
    } else {
        None
    }
}

/// The probed image accepted, or the error screen.  An accepted image leaves
/// the field, moves on to the drive list and starts drive detection.
pub open spec fn image_accepted(m: AppModel, exists: bool, is_file: bool, size_bytes: u64) -> AppModel {
    match image_refusal(m, exists, is_file, size_bytes) {
        Some(msg) => failed_with(m, msg),
        None => detecting(
            AppModel {
                image: Some(ImageModel { path: trim(m.input), name: image_name(trim(m.input)), size_bytes }),
                mode: InputMode::Normal,
                screen: AppScreen::SelectDrive,
                ..m
            },
        ),
    }
}

/// The drive list arrived.
pub open spec fn drives_arrived(m: AppModel, drives: Seq<DriveModel>) -> AppModel {
    AppModel { drives, drives_loading: false, drive_cursor: 0, ..m }
}

/// `msg` appended to the log, dropping the oldest lines beyond `MAX_LOG`.
pub open spec fn log_pushed(log: Seq<Seq<char>>, msg: Seq<char>) -> Seq<Seq<char>> {
    let l = log.push(msg);
    if l.len() > MAX_LOG {
        l.subrange(l.len() - MAX_LOG, l.len() as int)
    } else {
        l
    }
}

/// The placeholder shown when the written drive is not mounted.
pub open spec fn not_mounted_entry() -> UsbEntryModel {
    UsbEntryModel { name: "(device not mounted — re-plug to browse)"@, size_bytes: 0, is_dir: false, depth: 0 }
}

/// A browser choice put into the image-path field, back on the first screen.
pub open spec fn selection_applied(m: AppModel, path: Seq<char>) -> AppModel {
    AppModel { input: path, cursor: path.len() as int, screen: AppScreen::SelectImage, mode: InputMode::Editing, ..m }
}

/// The image extensions as strings.
fn image_extension_list() -> (r: Vec<String>)
    ensures
        texts_view(r@) == image_extensions(),
{
    let r = vec![
        string_of(&chars_of("img")),
        string_of(&chars_of("iso")),
        string_of(&chars_of("dmg")),
        string_of(&chars_of("zip")),
        string_of(&chars_of("gz")),
        string_of(&chars_of("xz")),
        string_of(&chars_of("raw")),
    ];
    assert(texts_view(r@) =~= image_extensions());
    r
}

/// `a` followed by the text `lit`.
fn with_suffix(a: &String, lit: &str) -> (r: String)
    ensures
        r@ == a@ + lit@,
{
    let mut v = chars_of_string(a);
    push_all(&mut v, &chars_of(lit));
    string_of(&v)
}

/// The text `lit` followed by `a`.
fn with_prefix(lit: &str, a: &Vec<char>) -> (r: String)
    ensures
        r@ == lit@ + a@,
{
    let mut v = chars_of(lit);
    push_all(&mut v, a);
    string_of(&v)
}

// ---------------------------------------------------------------------------
// Key presses
// ---------------------------------------------------------------------------

/// Key presses on the image-path screen.  While typing: Tab or Ctrl-F open
/// the browser, Enter asks for the image probe, characters are inserted,
/// Backspace/Delete erase, arrows/Home/End move, Esc quits.  Otherwise: Enter
/// or `i` start typing, Tab opens the browser, Esc or `q` quit.
pub open spec fn select_image_step(m: AppModel, k: KeyPress) -> (AppModel, bool) {
    match m.mode {
        InputMode::Editing => match k.key {
            Key::Tab => (browser_opened(m), true),
            Key::Char(c) => if c == 'f' && k.control {
                (browser_opened(m), true)
            } else {
                (char_inserted(m, c), true)
            },
            Key::Enter => (AppModel { request: Some(Request::CheckImage), ..m }, true),
            Key::Backspace => (char_erased(m), true),
            Key::Delete => (char_erased(typing_right(m)), true),
            Key::Left => (typing_left(m), true),
            Key::Right => (typing_right(m), true),
            Key::Home => (AppModel { cursor: 0, ..m }, true),
            Key::End => (AppModel { cursor: m.input.len() as int, ..m }, true),
            Key::Esc => (quitting(m), true),
            _ => (m, false),
        },
        InputMode::Normal => match k.key {
            Key::Enter => (AppModel { mode: InputMode::Editing, ..m }, true),
            Key::Char(c) => if c == 'i' {
                (AppModel { mode: InputMode::Editing, ..m }, true)
            } else if c == 'q' {
                (quitting(m), true)
            } else {
                (m, false)
            },
            Key::Tab => (browser_opened(m), true),
            Key::Esc => (quitting(m), true),
            _ => (m, false),
        },
    }
}

/// Key presses in the image browser: the browser decides; a chosen file goes
/// into the field, dismissing returns to typing, and a directory change asks
/// for the new listing.
pub open spec fn browse_step(m: AppModel, k: KeyPress) -> (AppModel, bool) {
    let (e, out) = explorer_step(m.explorer, k);
    match out {
        OutcomeModel::Selected(p) => (selection_applied(AppModel { explorer: e, ..m }, p), true),
        OutcomeModel::Dismissed => (
            AppModel { explorer: e, screen: AppScreen::SelectImage, mode: InputMode::Editing, ..m },
            true,
        ),
        OutcomeModel::Pending => (
            AppModel {
                explorer: e,
                request: if e.awaiting is Some {
                    Some(Request::ListDirectory)
                } else {
                    m.request
                },
                ..m
            },
            true,
        ),
        OutcomeModel::Unhandled => (AppModel { explorer: e, ..m }, false),
    }
}

/// Key presses on the drive list: arrows and `j`/`k` move, Enter or Space
/// confirm (nothing happens on an empty list), `r` or F5 detect again,
/// Backspace, Esc or `b` go back.
pub open spec fn select_drive_step(m: AppModel, k: KeyPress) -> (AppModel, bool) {
    if k.key == Key::Up || k.key == Key::Char('k') {
        (drive_cursor_up(m), true)
    } else if k.key == Key::Down || k.key == Key::Char('j') {
        (drive_cursor_down(m), true)
    } else if k.key == Key::Enter || k.key == Key::Char(' ') {
        if m.drives.len() == 0 {
            (m, true)
        } else {
            (drive_confirmed(m), true)
        }
    } else if k.key == Key::Char('r') || k.key == Key::F(5) {
        (detecting(m), true)
    } else if k.key == Key::Backspace || k.key == Key::Esc || k.key == Key::Char('b') {
        (gone_back(m), true)
    } else {
        (m, false)
    }
}

/// Key presses on the drive overview: Enter or `f` move on, Backspace, Esc
/// or `b` go back.
pub open spec fn drive_info_step(m: AppModel, k: KeyPress) -> (AppModel, bool) {
    if k.key == Key::Enter || k.key == Key::Char('f') {
        (AppModel { screen: AppScreen::ConfirmFlash, ..m }, true)
    } else if k.key == Key::Backspace || k.key == Key::Esc || k.key == Key::Char('b') {
        (gone_back(m), true)
    } else {
        (m, false)
    }
}

/// Key presses on the confirmation: Enter, `y` or `Y` start the flash, Esc,
/// `n`, `N` or `b` go back.
pub open spec fn confirm_flash_step(m: AppModel, k: KeyPress) -> (AppModel, bool) {
    if k.key == Key::Enter || k.key == Key::Char('y') || k.key == Key::Char('Y') {
        (flash_begun(m), true)
    } else if k.key == Key::Esc || k.key == Key::Char('n') || k.key == Key::Char('N') || k.key == Key::Char('b') {
        (gone_back(m), true)
    } else {
        (m, false)
    }
}

/// Key presses while flashing: `c` or Esc cancel.
pub open spec fn flashing_step(m: AppModel, k: KeyPress) -> (AppModel, bool) {
    if k.key == Key::Char('c') || k.key == Key::Esc {
        (flash_cancelled(m), true)
    } else {
        (m, false)
    }
}

/// Ten lines up.
pub open spec fn contents_paged_up(m: AppModel) -> AppModel {
    AppModel { scroll: if m.scroll >= 10 { m.scroll - 10 } else { 0 }, ..m }
}

/// Ten lines down, stopping at the last entry.
pub open spec fn contents_paged_down(m: AppModel) -> AppModel {
    let last = m.usb.len() - 1;
    AppModel {
        scroll: if m.usb.len() > 0 && m.scroll < last {
            if m.scroll + 10 < last {
                m.scroll + 10
            } else {
                last
            }
        } else {
            m.scroll
        },
        ..m
    }
}

/// Key presses on the completion screen: arrows, `j`/`k` and PageUp/PageDown
/// scroll, `r`/`R` start over, `q` or Esc quit.
pub open spec fn complete_step(m: AppModel, k: KeyPress) -> (AppModel, bool) {
    if k.key == Key::Up || k.key == Key::Char('k') {
        (contents_scrolled_up(m), true)
    } else if k.key == Key::Down || k.key == Key::Char('j') {
        (contents_scrolled_down(m), true)
    } else if k.key == Key::PageUp {
        (contents_paged_up(m), true)
    } else if k.key == Key::PageDown {
        (contents_paged_down(m), true)
    } else if k.key == Key::Char('r') || k.key == Key::Char('R') {
        (initial_app(), true)
    } else if k.key == Key::Char('q') || k.key == Key::Esc {
        (quitting(m), true)
    } else {
        (m, false)
    }
}

/// Key presses on the error screen: `r` or Enter start over, `q` or Esc quit.
pub open spec fn error_step(m: AppModel, k: KeyPress) -> (AppModel, bool) {
    if k.key == Key::Char('r') || k.key == Key::Enter {
        (initial_app(), true)
    } else if k.key == Key::Char('q') || k.key == Key::Esc {
        (quitting(m), true)
    } else {
        (m, false)
    }
}

/// One key press: Ctrl-C cancels a running flash or quits, Ctrl-Q quits, on
/// every screen; other keys go to the active screen.  The flag tells whether
/// the key was consumed.
pub open spec fn app_step(m: AppModel, k: KeyPress) -> (AppModel, bool) {
    if k.key == Key::Char('c') && k.control {
        (
            if m.screen == AppScreen::Flashing {
                flash_cancelled(m)
            } else {
                quitting(m)
            },
            true,
        )
    } else if k.key == Key::Char('q') && k.control {
        (quitting(m), true)
    } else {
        match m.screen {
            AppScreen::SelectImage => select_image_step(m, k),
            AppScreen::BrowseImage => browse_step(m, k),
            AppScreen::SelectDrive => select_drive_step(m, k),
            AppScreen::DriveInfo => drive_info_step(m, k),
            AppScreen::ConfirmFlash => confirm_flash_step(m, k),
            AppScreen::Flashing => flashing_step(m, k),
            AppScreen::Complete => complete_step(m, k),
            AppScreen::Error => error_step(m, k),
        }
    }
}

// ---------------------------------------------------------------------------
// Messages from the running flash, and the written stick
// ---------------------------------------------------------------------------

/// `FlashEvent` as plain values.
pub enum FlashEventModel {
    Progress(u64),
    Stage(Seq<char>),
    Log(Seq<char>),
    Completed,
    Failed(Seq<char>),
}

impl View for FlashEvent {
    type V = FlashEventModel;

    open spec fn view(&self) -> FlashEventModel {
        match self {
            FlashEvent::Progress(b) => FlashEventModel::Progress(*b),
            FlashEvent::Stage(s) => FlashEventModel::Stage(s@),
            FlashEvent::Log(s) => FlashEventModel::Log(s@),
            FlashEvent::Completed => FlashEventModel::Completed,
            FlashEvent::Failed(s) => FlashEventModel::Failed(s@),
        }
    }
}

pub open spec fn completed_message() -> Seq<char> {
    "Flash operation completed successfully."@
}

/// The state after a message from the running flash.  On completion the
/// written drive's contents are asked for (when a drive is selected).
pub open spec fn flash_update_applied(m: AppModel, u: FlashEventModel) -> AppModel {
    match u {
        FlashEventModel::Progress(b) => AppModel { flash_bytes: b, ..m },
        FlashEventModel::Stage(s) => AppModel { stage: s, log: log_pushed(m.log, s), ..m },
        FlashEventModel::Log(s) => AppModel { log: log_pushed(m.log, s), ..m },
        FlashEventModel::Completed => AppModel {
            stage: "Complete!"@,
            log: log_pushed(m.log, completed_message()),
            usb: Seq::empty(),
            request: if m.drive is Some {
                Some(Request::ScanUsb)
            } else {
                m.request
            },
            screen: AppScreen::Complete,
            ..m
        },
        FlashEventModel::Failed(e) => failed_with(m, e),
    }
}

/// The written drive's contents arrived: `None` when it is not mounted.
pub open spec fn usb_arrived(m: AppModel, found: Option<Seq<UsbEntryModel>>) -> AppModel {
    AppModel {
        usb: match found {
            Some(entries) => entries,
            None => seq![not_mounted_entry()],
        },
        ..m
    }
}

/// The mount point a line of the mount table gives for a device whose file
/// name is `base`: the line's device has that name or starts with it (a
/// partition), and its mount point is an absolute path other than `/`.
pub open spec fn mount_line_point(line: Seq<char>, base: Seq<char>) -> Option<Seq<char>> {
    let w = words(line);
    let dev = if w.len() > 0 {
        w[0]
    } else {
        Seq::empty()
    };
    let mp = if w.len() > 1 {
        w[1]
    } else {
        Seq::empty()
    };
    let dev_base = match path_file_name(dev) {
        Some(n) => n,
        None => Seq::empty(),
    };
    if mp.len() == 0 || dev.len() == 0 {
        None
    } else if !(dev_base == base || starts_with(dev_base, base)) {
        None
    } else if mp[0] != '/' || mp == seq!['/'] {
        None
    } else {
        Some(mp)
    }
}

/// The first mount point the table's lines give for `base`.
pub open spec fn first_mount_point(ls: Seq<Seq<char>>, base: Seq<char>) -> Option<Seq<char>>
    decreases ls.len(),
{
    if ls.len() == 0 {
        None
    } else {
        match mount_line_point(ls[0], base) {
            Some(mp) => Some(mp),
            None => first_mount_point(ls.drop_first(), base),
        }
    }
}

/// Where the device (or one of its partitions) is mounted, after the mount
/// table text.
pub open spec fn device_mount_point(table: Seq<char>, device_path: Seq<char>) -> Option<Seq<char>> {
    match path_file_name(device_path) {
        Some(base) => first_mount_point(lines(table), base),
        None => None,
    }
}

fn mount_line_point_exec(line: &Vec<char>, base: &Vec<char>) -> (r: Option<Vec<char>>)
    ensures
        match r {
            Some(mp) => mount_line_point(line@, base@) == Some(mp@),
            None => mount_line_point(line@, base@) is None,
        },
{
    let w = split_ws(line);
    let dev = if w.len() > 0 {
        w[0].clone()
    } else {
        Vec::new()
    };
    let mp = if w.len() > 1 {
        w[1].clone()
    } else {
        Vec::new()
    };
    assert(views(w@)[0] == w@[0]@ || w.len() == 0);
    assert(w.len() <= 1 || views(w@)[1] == w@[1]@);
    assert(dev@ == (if words(line@).len() > 0 { words(line@)[0] } else { Seq::<char>::empty() }));
    assert(mp@ == (if words(line@).len() > 1 { words(line@)[1] } else { Seq::<char>::empty() }));
    if mp.len() == 0 || dev.len() == 0 {
        return None;
    }
    let dev_base = match file_name(string_of(&dev).as_str()) {
        Some(n) => chars_of_string(&n),
        None => Vec::new(),
    };
    if !(eq_chars(&dev_base, base) || starts_with_exec(&dev_base, base)) {
        return None;
    }
    if mp[0] != '/' || mp.len() == 1 {
        proof {
            if mp@[0] == '/' && mp.len() == 1 {
                assert(mp@ =~= seq!['/']);
            }
        }
        return None;
    }
    assert(mp@ != seq!['/']);
    Some(mp)
}

/// Where the device (or one of its partitions) is mounted, after the text of
/// the mount table (see `device_mount_point`).
pub fn mount_point_for(table: &str, device_path: &str) -> (r: Option<String>)
    ensures
        match r {
            Some(mp) => device_mount_point(table@, device_path@) == Some(mp@),
            None => device_mount_point(table@, device_path@) is None,
        },
{
    let base = match file_name(device_path) {
        Some(b) => chars_of_string(&b),
        None => return None,
    };
    assert(path_file_name(device_path@) == Some(base@));
    let ls = lines_exec(&chars_of(table));
    let ghost lv = views(ls@);
    let mut i: usize = 0;
    assert(lv.skip(0) =~= lv);
    while i < ls.len()
        invariant
            i <= ls.len(),
            lv == views(ls@),
            lv == lines(table@),
            path_file_name(device_path@) == Some(base@),
            first_mount_point(lv, base@) == first_mount_point(lv.skip(i as int), base@),
        decreases ls.len() - i,
    {
        assert(lv.skip(i as int)[0] == ls@[i as int]@);
        assert(lv.skip(i as int).drop_first() =~= lv.skip(i as int + 1));
        assert(lv.skip(i as int).len() > 0);
        match mount_line_point_exec(&ls[i], &base) {
            Some(mp) => {
                assert(first_mount_point(lv.skip(i as int), base@) == Some(mp@));
                return Some(string_of(&mp));
            },
            None => {},
        }
        i += 1;
    }
    None
}

// ---------------------------------------------------------------------------
// Ordering the detected drives
// ---------------------------------------------------------------------------

/// Where a drive with device path `k` goes into a list sorted by device path:
/// after every drive whose path is not greater.
pub open spec fn path_slot(s: Seq<DriveModel>, k: Seq<char>) -> int
    decreases s.len(),
{
    if s.len() == 0 {
        0
    } else if lex_lt(k, s[0].device_path) {
        0
    } else {
        1 + path_slot(s.drop_first(), k)
    }
}

/// The stable sort of drives by device path.
pub open spec fn sort_by_path(s: Seq<DriveModel>) -> Seq<DriveModel>
    decreases s.len(),
{
    if s.len() == 0 {
        s
    } else {
        let sorted = sort_by_path(s.drop_last());
        sorted.insert(path_slot(sorted, s.last().device_path), s.last())
    }
}

proof fn lemma_path_slot(s: Seq<DriveModel>, k: Seq<char>)
    ensures
        0 <= path_slot(s, k) <= s.len(),
        forall|i: int| 0 <= i < path_slot(s, k) ==> !lex_lt(k, #[trigger] s[i].device_path),
        path_slot(s, k) < s.len() ==> lex_lt(k, s[path_slot(s, k)].device_path),
    decreases s.len(),
{
    if s.len() > 0 && !lex_lt(k, s[0].device_path) {
        let t = s.drop_first();
        lemma_path_slot(t, k);
        assert forall|i: int| 0 <= i < path_slot(s, k) implies !lex_lt(k, #[trigger] s[i].device_path) by {
            if i > 0 {
                assert(s[i] == t[i - 1]);
            }
        }
        if path_slot(s, k) < s.len() {
            assert(s[path_slot(s, k)] == t[path_slot(t, k)]);
        }
    }
}

/// The drives, in the order the drive list shows them: sorted by device
/// path, drives with equal paths in detection order.
pub fn order_drives(drives: Vec<DriveInfo>) -> (r: Vec<DriveInfo>)
    ensures
        drives_view(r@) == sort_by_path(drives_view(drives@)),
{
    let ghost dv = drives_view(drives@);
    let mut out: Vec<DriveInfo> = Vec::new();
    let mut i: usize = 0;
    assert(dv.take(0) =~= Seq::<DriveModel>::empty());
    assert(drives_view(out@) =~= Seq::<DriveModel>::empty());
    while i < drives.len()
        invariant
            i <= drives.len(),
            dv == drives_view(drives@),
            drives_view(out@) == sort_by_path(dv.take(i as int)),
        decreases drives.len() - i,
    {
        let d = drives[i].clone();
        let key = chars_of_string(&d.device_path);
        let ghost ov = drives_view(out@);
        let mut j: usize = 0;
        while j < out.len() && !lex_less(&key, &chars_of_string(&out[j].device_path))
            invariant
                j <= out.len(),
                ov == drives_view(out@),
                key@ == d@.device_path,
                forall|m: int| 0 <= m < j ==> !lex_lt(key@, #[trigger] ov[m].device_path),
            decreases out.len() - j,
        {
            assert(ov[j as int] == out@[j as int]@);
            j += 1;
        }
        proof {
            if j < out.len() {
                assert(ov[j as int] == out@[j as int]@);
            }
            lemma_path_slot_at(ov, key@, j as int);
            assert(dv.take(i as int + 1).drop_last() =~= dv.take(i as int));
            assert(dv.take(i as int + 1).last() == d@);
        }
        out.insert(j, d);
        assert(drives_view(out@) =~= ov.insert(j as int, d@));
        i += 1;
    }
    assert(dv.take(drives.len() as int) =~= dv);
    out
}

proof fn lemma_path_slot_at(s: Seq<DriveModel>, k: Seq<char>, j: int)
    requires
        0 <= j <= s.len(),
        forall|i: int| 0 <= i < j ==> !lex_lt(k, #[trigger] s[i].device_path),
        j == s.len() || lex_lt(k, s[j].device_path),
    ensures
        path_slot(s, k) == j,
    decreases j,
{
    if j > 0 {
        assert(!lex_lt(k, s[0].device_path));
        let t = s.drop_first();
        assert forall|i: int| 0 <= i < j - 1 implies !lex_lt(k, #[trigger] t[i].device_path) by {
            assert(t[i] == s[i + 1]);
        }
        if j < s.len() {
            assert(t[j - 1] == s[j]);
        }
        lemma_path_slot_at(t, k, j - 1);
    } else if s.len() > 0 {
        assert(lex_lt(k, s[0].device_path));
    }
}

/// The drive list is sorted by device path and holds exactly the detected
/// drives.
pub proof fn law_drive_order(s: Seq<DriveModel>)
    ensures
        forall|i: int, j: int|
            0 <= i < j < sort_by_path(s).len() ==> !lex_lt(
                (#[trigger] sort_by_path(s)[j]).device_path,
                (#[trigger] sort_by_path(s)[i]).device_path,
            ),
        sort_by_path(s).to_multiset() == s.to_multiset(),
    decreases s.len(),
{
    broadcast use vstd::seq_lib::to_multiset_insert, vstd::seq_lib::to_multiset_build, vstd::seq_lib::to_multiset_len;

    if s.len() > 0 {
        let r = sort_by_path(s.drop_last());
        law_drive_order(s.drop_last());
        let x = s.last();
        let k = x.device_path;
        let j = path_slot(r, k);
        lemma_path_slot(r, k);
        let t = r.insert(j, x);
        assert(sort_by_path(s) == t);
        assert forall|a: int, b: int| 0 <= a < b < t.len() implies !lex_lt(
            (#[trigger] t[b]).device_path,
            (#[trigger] t[a]).device_path,
        ) by {
            if b < j {
                assert(t[a] == r[a] && t[b] == r[b]);
            } else if b == j {
                assert(t[a] == r[a] && t[b] == x);
            } else if a < j {
                assert(t[a] == r[a] && t[b] == r[b - 1]);
            } else if a == j {
                assert(t[a] == x && t[b] == r[b - 1]);
                let y = r[b - 1].device_path;
                let z = r[j].device_path;
                if lex_lt(y, k) {
                    lemma_lex_trans(y, k, z);
                    if b - 1 == j {
                        lemma_lex_irrefl(z);
                    }
                }
            } else {
                assert(t[a] == r[a - 1] && t[b] == r[b - 1]);
            }
        }
        assert(s.drop_last().push(x) =~= s);
    }
}

// ---------------------------------------------------------------------------
// Laws
// ---------------------------------------------------------------------------

/// Ctrl-Q quits from every screen, and the key is consumed.
pub proof fn law_ctrl_q_always_quits(m: AppModel, k: KeyPress)
    requires
        k.key == Key::Char('q'),
        k.control,
    ensures
        app_step(m, k) == (quitting(m), true),
{
}

/// While flashing, Ctrl-C, `c` and Esc all cancel: the flash is told to stop
/// and the error screen shows the cancellation.
pub proof fn law_flash_cancel_keys(m: AppModel, k: KeyPress)
    requires
        m.screen == AppScreen::Flashing,
        k.key == Key::Char('c') || k.key == Key::Esc,
    ensures
        app_step(m, k) == (flash_cancelled(m), true),
        app_step(m, k).0.request == Some(Request::CancelFlash),
        app_step(m, k).0.screen == AppScreen::Error,
        app_step(m, k).0.error == cancel_message(),
{
}

/// A flash is only ever started from the confirmation screen, with both an
/// image and a drive selected.
pub proof fn law_flash_needs_image_and_drive(m: AppModel, k: KeyPress)
    requires
        m.request != Some(Request::StartFlash),
        app_step(m, k).0.request == Some(Request::StartFlash),
    ensures
        m.screen == AppScreen::ConfirmFlash,
        m.image is Some,
        m.drive is Some,
{
}

/// Starting over from the completion or error screen gives exactly a fresh
/// application.
pub proof fn law_start_over_is_fresh(m: AppModel, k: KeyPress)
    requires
        m.screen == AppScreen::Complete || m.screen == AppScreen::Error,
        k.key == Key::Char('r'),
        !k.control,
    ensures
        app_step(m, k) == (initial_app(), true),
{
}

/// Moving on to the confirmation and going back returns to the drive
/// overview unchanged.
pub proof fn law_confirm_then_back_restores(m: AppModel, on: KeyPress, back: KeyPress)
    requires
        m.screen == AppScreen::DriveInfo,
        on.key == Key::Enter || on.key == Key::Char('f'),
        back.key == Key::Esc || back.key == Key::Char('n') || back.key == Key::Char('N') || back.key == Key::Char('b'),
        !back.control,
    ensures
        app_step(app_step(m, on).0, back) == (m, true),
{
}

/// No key press makes a system drive or a read-only drive the flash target:
/// a target a key press chooses is writable.
pub proof fn law_chosen_target_is_writable(m: AppModel, k: KeyPress)
    requires
        app_step(m, k).0.drive != m.drive,
        app_step(m, k).0.drive is Some,
    ensures
        !app_step(m, k).0.drive->Some_0.is_system,
        !app_step(m, k).0.drive->Some_0.is_read_only,
{
}

/// On the drive list the cursor stays on the list while moving.
pub proof fn law_drive_cursor_stays_in_list(m: AppModel, k: KeyPress)
    requires
        m.screen == AppScreen::SelectDrive,
        0 <= m.drive_cursor < m.drives.len(),
        k.key == Key::Up || k.key == Key::Down || k.key == Key::Char('j') || k.key == Key::Char('k'),
    ensures
        0 <= app_step(m, k).0.drive_cursor < app_step(m, k).0.drives.len(),
{
}

/// The flash log never holds more than `MAX_LOG` lines, and the newest line
/// is the one just added.
pub proof fn law_log_is_bounded(log: Seq<Seq<char>>, msg: Seq<char>)
    requires
        log.len() <= MAX_LOG,
    ensures
        log_pushed(log, msg).len() <= MAX_LOG,
        log_pushed(log, msg).last() == msg,
        log.len() < MAX_LOG ==> log_pushed(log, msg) == log.push(msg),
{
}

/// Backspace undoes typing: inserting a character and then erasing the one
/// before the cursor gives back the field and the cursor as they were.
pub proof fn law_backspace_undoes_insert(m: AppModel, c: char)
    requires
        input_ok(m),
    ensures
        char_erased(char_inserted(m, c)) == m,
{
    let n = char_inserted(m, c);
    assert(n.input.remove(m.cursor) =~= m.input);
}

/// Every key keeps the typing cursor within the image-path field.
pub proof fn law_keys_keep_typing_cursor_in_field(m: AppModel, k: KeyPress)
    requires
        input_ok(m),
        m.input.len() + 1 < usize::MAX,
        forall|i: int| 0 <= i < m.explorer.entries.len() ==> #[trigger] m.explorer.entries[i].path.len() < usize::MAX,
        m.explorer.cursor >= 0,
    ensures
        input_ok(app_step(m, k).0),
{
    crate::file_explorer::law_selection_is_highlighted_file(m.explorer, k);
    if m.screen == AppScreen::SelectImage && m.mode == InputMode::Editing {
        if k.key == Key::Delete {
            let r = typing_right(m);
            assert(input_ok(r));
        }
    }
}

impl App {
    /// Takes in a message from the running flash (see `flash_update_applied`).
    pub fn apply_flash_event(&mut self, update: FlashEvent)
        ensures
            final(self)@ == flash_update_applied(old(self)@, update@),
    {
        match update {
            FlashEvent::Progress(bytes) => {
                self.flash_bytes = bytes;
            },
            FlashEvent::Stage(s) => {
                self.flash_stage = s.clone();
                self.push_log(s);
            },
            FlashEvent::Log(msg) => {
                self.push_log(msg);
            },
            FlashEvent::Completed => {
                self.flash_stage = string_of(&chars_of("Complete!"));
                self.push_log(string_of(&chars_of("Flash operation completed successfully.")));
                self.usb_contents = Vec::new();
                if self.selected_drive.is_some() {
                    self.request = Some(Request::ScanUsb);
                }
                self.screen = AppScreen::Complete;
                assert(self@.usb =~= Seq::<UsbEntryModel>::empty());
            },
            FlashEvent::Failed(err) => {
                self.error_message = err;
                self.screen = AppScreen::Error;
            },
        }
    }

    /// Takes in the written drive's contents; `None` when it is not mounted.
    pub fn usb_scanned(&mut self, found: Option<Vec<UsbEntry>>)
        ensures
            final(self)@ == usb_arrived(
                old(self)@,
                match found {
                    Some(v) => Some(usb_view(v@)),
                    None => None,
                },
            ),
    {
        match found {
            Some(entries) => {
                self.usb_contents = entries;
            },
            None => {
                let placeholder = UsbEntry {
                    name: string_of(&chars_of("(device not mounted — re-plug to browse)")),
                    size_bytes: 0,
                    is_dir: false,
                    depth: 0,
                };
                self.usb_contents = vec![placeholder];
                assert(self@.usb =~= seq![not_mounted_entry()]);
            },
        }
    }

    /// A USB device came or went: while the drive list is shown it is
    /// detected again; elsewhere nothing changes.
    pub fn on_hotplug(&mut self)
        ensures
            final(self)@ == (if old(self).screen == AppScreen::SelectDrive {
                detecting(old(self)@)
            } else {
                old(self)@
            }),
    {
        if self.screen == AppScreen::SelectDrive {
            self.start_drive_detection();
        }
    }

    /// The pending work for the front-end, leaving none.
    pub fn take_request(&mut self) -> (r: Option<Request>)
        ensures
            r == old(self).request,
            final(self)@ == (AppModel { request: None, ..old(self)@ }),
    {
        let r = self.request;
        self.request = None;
        r
    }

    /// Processes one key press (see `app_step`); returns whether it was
    /// consumed.
    pub fn handle_key(&mut self, key: KeyPress) -> (consumed: bool)
        requires
            key_ok(old(self)@, key),
        ensures
            (final(self)@, consumed) == app_step(old(self)@, key),
    {
        if key.key == Key::Char('c') && key.control {
            if self.screen == AppScreen::Flashing {
                self.cancel_flash();
            } else {
                self.should_quit = true;
            }
            return true;
        }
        if key.key == Key::Char('q') && key.control {
            self.should_quit = true;
            return true;
        }
        match self.screen {
            AppScreen::SelectImage => self.key_select_image(key),
            AppScreen::BrowseImage => self.key_browse(key),
            AppScreen::SelectDrive => self.key_select_drive(key),
            AppScreen::DriveInfo => {
                if key.key == Key::Enter || key.key == Key::Char('f') {
                    self.advance_to_confirm();
                    true
                } else if key.key == Key::Backspace || key.key == Key::Esc || key.key == Key::Char('b') {
                    self.go_back();
                    true
                } else {
                    false
                }
            },
            AppScreen::ConfirmFlash => {
                if key.key == Key::Enter || key.key == Key::Char('y') || key.key == Key::Char('Y') {
                    match self.begin_flash() {
                        Ok(()) => {},
                        Err(msg) => {
                            self.error_message = msg;
                            self.screen = AppScreen::Error;
                        },
                    }
                    true
                } else if key.key == Key::Esc || key.key == Key::Char('n') || key.key == Key::Char('N')
                    || key.key == Key::Char('b') {
                    self.go_back();
                    true
                } else {
                    false
                }
            },
            AppScreen::Flashing => {
                if key.key == Key::Char('c') || key.key == Key::Esc {
                    self.cancel_flash();
                    true
                } else {
                    false
                }
            },
            AppScreen::Complete => self.key_complete(key),
            AppScreen::Error => {
                if key.key == Key::Char('r') || key.key == Key::Enter {
                    self.reset();
                    true
                } else if key.key == Key::Char('q') || key.key == Key::Esc {
                    self.should_quit = true;
                    true
                } else {
                    false
                }
            },
        }
    }

    fn key_select_image(&mut self, key: KeyPress) -> (consumed: bool)
        requires
            key_ok(old(self)@, key),
            old(self)@.screen == AppScreen::SelectImage,
        ensures
            (final(self)@, consumed) == select_image_step(old(self)@, key),
    {
        match self.input_mode {
            InputMode::Editing => match key.key {
                Key::Tab => {
                    self.open_file_explorer();
                    true
                },
                Key::Char(c) => {
                    if c == 'f' && key.control {
                        self.open_file_explorer();
                    } else {
                        self.image_insert(c);
                    }
                    true
                },
                Key::Enter => {
                    self.confirm_image();
                    true
                },
                Key::Backspace => {
                    self.image_backspace();
                    true
                },
                Key::Delete => {
                    self.image_cursor_right();
                    self.image_backspace();
                    true
                },
                Key::Left => {
                    self.image_cursor_left();
                    true
                },
                Key::Right => {
                    self.image_cursor_right();
                    true
                },
                Key::Home => {
                    self.image_cursor = 0;
                    true
                },
                Key::End => {
                    self.image_cursor = chars_of_string(&self.image_input).len();
                    true
                },
                Key::Esc => {
                    self.should_quit = true;
                    true
                },
                _ => false,
            },
            InputMode::Normal => match key.key {
                Key::Enter => {
                    self.input_mode = InputMode::Editing;
                    true
                },
                Key::Char(c) => {
                    if c == 'i' {
                        self.input_mode = InputMode::Editing;
                        true
                    } else if c == 'q' {
                        self.should_quit = true;
                        true
                    } else {
                        false
                    }
                },
                Key::Tab => {
                    self.open_file_explorer();
                    true
                },
                Key::Esc => {
                    self.should_quit = true;
                    true
                },
                _ => false,
            },
        }
    }

    fn key_browse(&mut self, key: KeyPress) -> (consumed: bool)
        ensures
            (final(self)@, consumed) == browse_step(old(self)@, key),
    {
        let outcome = self.file_explorer.handle_key(key);
        match outcome {
            ExplorerOutcome::Selected(path) => {
                self.apply_explorer_selection(path);
                true
            },
            ExplorerOutcome::Dismissed => {
                self.screen = AppScreen::SelectImage;
                self.input_mode = InputMode::Editing;
                true
            },
            ExplorerOutcome::Pending => {
                if self.file_explorer.awaiting.is_some() {
                    self.request = Some(Request::ListDirectory);
                }
                true
            },
            ExplorerOutcome::Unhandled => false,
        }
    }

    fn key_select_drive(&mut self, key: KeyPress) -> (consumed: bool)
        ensures
            (final(self)@, consumed) == select_drive_step(old(self)@, key),
    {
        if key.key == Key::Up || key.key == Key::Char('k') {
            self.drive_up();
            true
        } else if key.key == Key::Down || key.key == Key::Char('j') {
            self.drive_down();
            true
        } else if key.key == Key::Enter || key.key == Key::Char(' ') {
            if self.available_drives.len() == 0 {
                return true;
            }
            match self.confirm_drive() {
                Ok(()) => {},
                Err(msg) => {
                    self.error_message = msg;
                    self.screen = AppScreen::Error;
                },
            }
            true
        } else if key.key == Key::Char('r') || key.key == Key::F(5) {
            self.start_drive_detection();
            true
        } else if key.key == Key::Backspace || key.key == Key::Esc || key.key == Key::Char('b') {
            self.go_back();
            true
        } else {
            false
        }
    }

    fn key_complete(&mut self, key: KeyPress) -> (consumed: bool)
        ensures
            (final(self)@, consumed) == complete_step(old(self)@, key),
    {
        if key.key == Key::Up || key.key == Key::Char('k') {
            self.contents_up();
            true
        } else if key.key == Key::Down || key.key == Key::Char('j') {
            self.contents_down();
            true
        } else if key.key == Key::PageUp {
            let mut n: usize = 0;
            while n < 10
                invariant
                    n <= 10,
                    self@ == (AppModel { scroll: if old(self).contents_scroll >= n { old(self).contents_scroll - n } else { 0 }, ..old(self)@ }),
                decreases 10 - n,
            {
                self.contents_up();
                n += 1;
            }
            true
        } else if key.key == Key::PageDown {
            let mut n: usize = 0;
            let ghost last = old(self)@.usb.len() - 1;
            while n < 10
                invariant
                    n <= 10,
                    last == old(self)@.usb.len() - 1,
                    self@ == (AppModel {
                        scroll: if old(self)@.usb.len() > 0 && old(self).contents_scroll < last {
                            if old(self).contents_scroll + n < last {
                                old(self).contents_scroll + n
                            } else {
                                last
                            }
                        } else {
                            old(self).contents_scroll as int
                        },
                        ..old(self)@
                    }),
                decreases 10 - n,
            {
                self.contents_down();
                n += 1;
            }
            true
        } else if key.key == Key::Char('r') || key.key == Key::Char('R') {
            self.reset();
            true
        } else if key.key == Key::Char('q') || key.key == Key::Esc {
            self.should_quit = true;
            true
        } else {
            false
        }
    }

    /// A fresh application (see `initial_app`).
    pub fn new() -> (r: App)
        ensures
            r@ == initial_app(),
    {
        let explorer = FileExplorer::new(String::new(), image_extension_list(), Vec::new());
        assert(explorer@.entries =~= Seq::<crate::file_explorer::EntryModel>::empty());
        let app = App {
            screen: AppScreen::SelectImage,
            image_input: String::new(),
            image_cursor: 0,
            input_mode: InputMode::Editing,
            selected_image: None,
            available_drives: Vec::new(),
            drive_cursor: 0,
            selected_drive: None,
            drives_loading: false,
            flash_bytes: 0,
            flash_stage: string_of(&chars_of("Initialising…")),
            flash_log: Vec::new(),
            usb_contents: Vec::new(),
            contents_scroll: 0,
            error_message: String::new(),
            tick_count: 0,
            should_quit: false,
            file_explorer: explorer,
            request: None,
        };
        assert(app@.drives =~= Seq::<DriveModel>::empty());
        assert(app@.log =~= Seq::<Seq<char>>::empty());
        assert(app@.usb =~= Seq::<UsbEntryModel>::empty());
        app
    }

    /// Back to a fresh application.
    pub fn reset(&mut self)
        ensures
            final(self)@ == initial_app(),
    {
        *self = App::new();
    }

    /// Moves the drive cursor up.
    pub fn drive_up(&mut self)
        ensures
            final(self)@ == drive_cursor_up(old(self)@),
    {
        if self.drive_cursor > 0 {
            self.drive_cursor -= 1;
        }
    }

    /// Moves the drive cursor down, stopping at the last drive.
    pub fn drive_down(&mut self)
        ensures
            final(self)@ == drive_cursor_down(old(self)@),
    {
        if self.available_drives.len() > 0 && self.drive_cursor < self.available_drives.len() - 1 {
            self.drive_cursor += 1;
        }
    }

    /// Scrolls the contents list up.
    pub fn contents_up(&mut self)
        ensures
            final(self)@ == contents_scrolled_up(old(self)@),
    {
        if self.contents_scroll > 0 {
            self.contents_scroll -= 1;
        }
    }

    /// Scrolls the contents list down, stopping at the last entry.
    pub fn contents_down(&mut self)
        ensures
            final(self)@ == contents_scrolled_down(old(self)@),
    {
        if self.usb_contents.len() > 0 && self.contents_scroll < self.usb_contents.len() - 1 {
            self.contents_scroll += 1;
        }
    }

    /// Inserts a character at the typing cursor.
    pub fn image_insert(&mut self, c: char)
        requires
            old(self)@.cursor < usize::MAX,
            old(self)@.input.len() < usize::MAX,
        ensures
            final(self)@ == char_inserted(old(self)@, c),
    {
        let mut v = chars_of_string(&self.image_input);
        let at = if self.image_cursor < v.len() {
            self.image_cursor
        } else {
            v.len()
        };
        v.insert(at, c);
        self.image_input = string_of(&v);
        self.image_cursor += 1;
    }

    /// Deletes the character before the typing cursor.
    pub fn image_backspace(&mut self)
        requires
            input_ok(old(self)@),
        ensures
            final(self)@ == char_erased(old(self)@),
    {
        if self.image_cursor == 0 {
            return;
        }
        let mut v = chars_of_string(&self.image_input);
        v.remove(self.image_cursor - 1);
        self.image_input = string_of(&v);
        self.image_cursor -= 1;
    }

    /// Moves the typing cursor one character left.
    pub fn image_cursor_left(&mut self)
        ensures
            final(self)@ == typing_left(old(self)@),
    {
        if self.image_cursor > 0 {
            self.image_cursor -= 1;
        }
    }

    /// Moves the typing cursor one character right, stopping at the end.
    pub fn image_cursor_right(&mut self)
        ensures
            final(self)@ == typing_right(old(self)@),
    {
        let len = chars_of_string(&self.image_input).len();
        if self.image_cursor < len {
            self.image_cursor += 1;
        }
    }

    /// Asks for the probe of the image named by the field.
    pub fn confirm_image(&mut self)
        ensures
            final(self)@ == (AppModel { request: Some(Request::CheckImage), ..old(self)@ }),
    {
        self.request = Some(Request::CheckImage);
    }

    /// The image path the field names: its trimmed text.
    pub fn image_path(&self) -> (r: String)
        ensures
            r@ == trim(self@.input),
    {
        string_of(&trim_exec(&chars_of_string(&self.image_input)))
    }

    /// Takes in the probe of the image file (see `image_accepted`).
    pub fn image_checked(&mut self, probe: ImageProbe)
        ensures
            final(self)@ == image_accepted(old(self)@, probe.exists, probe.is_file, probe.size_bytes),
    {
        let path = trim_exec(&chars_of_string(&self.image_input));
        if !probe.exists {
            self.error_message = with_prefix("File not found: ", &path);
            self.screen = AppScreen::Error;
        } else if !probe.is_file {
            self.error_message = with_prefix("Not a file: ", &path);
            self.screen = AppScreen::Error;
        } else if probe.size_bytes == 0 {
            self.error_message = string_of(&chars_of("Image file appears to be empty."));
            self.screen = AppScreen::Error;
        } else {
            let path_text = string_of(&path);
            let name = match file_name(path_text.as_str()) {
                Some(n) => n,
                None => string_of(&chars_of("Unknown")),
            };
            self.selected_image = Some(ImageInfo { path: path_text, name, size_bytes: probe.size_bytes });
            self.input_mode = InputMode::Normal;
            self.screen = AppScreen::SelectDrive;
            self.start_drive_detection();
        }
    }

    /// Starts (again) detecting drives.
    pub fn start_drive_detection(&mut self)
        ensures
            final(self)@ == detecting(old(self)@),
    {
        self.drives_loading = true;
        self.available_drives = Vec::new();
        self.drive_cursor = 0;
        self.request = Some(Request::DetectDrives);
        assert(self@.drives =~= Seq::<DriveModel>::empty());
    }

    /// Takes in the detected drives.
    pub fn drives_detected(&mut self, drives: Vec<DriveInfo>)
        ensures
            final(self)@ == drives_arrived(old(self)@, drives_view(drives@)),
    {
        self.available_drives = drives;
        self.drives_loading = false;
        self.drive_cursor = 0;
    }

    /// Confirms the highlighted drive as target and moves on to its
    /// overview; refused for a missing, system or read-only drive.
    pub fn confirm_drive(&mut self) -> (r: Result<(), String>)
        ensures
            r is Ok <==> drive_refusal(old(self)@) is None,
            r matches Err(e) ==> drive_refusal(old(self)@) == Some(e@) && final(self)@ == old(self)@,
            r is Ok ==> final(self)@ == drive_confirmed(old(self)@),
    {
        if self.drive_cursor >= self.available_drives.len() {
            return Err(string_of(&chars_of("No drive selected.")));
        }
        let drive = self.available_drives[self.drive_cursor].clone();
        assert(self@.drives[self.drive_cursor as int] == self.available_drives@[self.drive_cursor as int]@);
        if drive.is_system {
            return Err(with_suffix(&drive.name, " is a system drive and cannot be used as a flash target."));
        }
        if drive.is_read_only {
            return Err(with_suffix(&drive.name, " is read-only."));
        }
        self.selected_drive = Some(drive);
        self.screen = AppScreen::DriveInfo;
        Ok(())
    }

    /// Moves on from the drive overview to the confirmation.
    pub fn advance_to_confirm(&mut self)
        ensures
            final(self)@ == (AppModel { screen: AppScreen::ConfirmFlash, ..old(self)@ }),
    {
        self.screen = AppScreen::ConfirmFlash;
    }

    /// Starts the flash; refused while image or drive is missing.
    pub fn begin_flash(&mut self) -> (r: Result<(), String>)
        ensures
            r is Ok <==> flash_refusal(old(self)@) is None,
            r matches Err(e) ==> flash_refusal(old(self)@) == Some(e@) && final(self)@ == old(self)@,
            r is Ok ==> final(self)@ == flash_begun(old(self)@),
    {
        if self.selected_image.is_none() {
            return Err(string_of(&chars_of("No image selected.")));
        }
        if self.selected_drive.is_none() {
            return Err(string_of(&chars_of("No drive selected.")));
        }
        self.flash_bytes = 0;
        self.flash_stage = string_of(&chars_of("Starting…"));
        self.flash_log = Vec::new();
        self.request = Some(Request::StartFlash);
        self.screen = AppScreen::Flashing;
        assert(self@.log =~= Seq::<Seq<char>>::empty());
        Ok(())
    }

    /// Stops the running flash and shows why.
    pub fn cancel_flash(&mut self)
        ensures
            final(self)@ == flash_cancelled(old(self)@),
    {
        self.request = Some(Request::CancelFlash);
        self.error_message = string_of(&chars_of("Flash operation cancelled by user."));
        self.screen = AppScreen::Error;
    }

    /// Goes back one step (see `gone_back`).
    pub fn go_back(&mut self)
        ensures
            final(self)@ == gone_back(old(self)@),
    {
        match self.screen {
            AppScreen::SelectDrive => {
                self.screen = AppScreen::SelectImage;
                self.input_mode = InputMode::Editing;
            },
            AppScreen::DriveInfo => {
                self.screen = AppScreen::SelectDrive;
            },
            AppScreen::ConfirmFlash => {
                self.screen = AppScreen::DriveInfo;
            },
            _ => {},
        }
    }

    /// Opens the image browser.
    pub fn open_file_explorer(&mut self)
        ensures
            final(self)@ == browser_opened(old(self)@),
    {
        self.screen = AppScreen::BrowseImage;
        self.request = Some(Request::OpenBrowser);
    }

    /// Puts the browser's choice into the image-path field.
    pub fn apply_explorer_selection(&mut self, path: String)
        ensures
            final(self)@ == selection_applied(old(self)@, path@),
    {
        let n = chars_of_string(&path).len();
        self.image_input = path;
        self.image_cursor = n;
        self.screen = AppScreen::SelectImage;
        self.input_mode = InputMode::Editing;
    }

    /// Appends a line to the flash log, keeping at most `MAX_LOG` lines.
    pub fn push_log(&mut self, msg: String)
        ensures
            final(self)@ == (AppModel { log: log_pushed(old(self)@.log, msg@), ..old(self)@ }),
    {
        let ghost l = texts_view(self.flash_log@).push(msg@);
        self.flash_log.push(msg);
        assert(texts_view(self.flash_log@) =~= l);
        if self.flash_log.len() > MAX_LOG {
            let drop = self.flash_log.len() - MAX_LOG;
            let mut kept: Vec<String> = Vec::new();
            let mut i: usize = drop;
            while i < self.flash_log.len()
                invariant
                    drop <= i <= self.flash_log.len(),
                    l == texts_view(self.flash_log@),
                    drop == l.len() - MAX_LOG,
                    texts_view(kept@) =~= l.subrange(drop as int, i as int),
                decreases self.flash_log.len() - i,
            {
                let ghost before = kept@;
                kept.push(self.flash_log[i].clone());
                assert(l[i as int] == self.flash_log@[i as int]@);
                assert(texts_view(kept@) =~= texts_view(before).push(l[i as int]));
                assert(l.subrange(drop as int, i as int + 1) =~= l.subrange(drop as int, i as int).push(l[i as int]));
                i += 1;
            }
            self.flash_log = kept;
        }
    }
}

} // verus!
