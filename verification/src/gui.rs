//! The desktop front-end's state and its update function.
//!
//! Every message the desktop UI produces is applied here; what needs the
//! outside world (the file picker, drive detection) is returned as a
//! command.  The progress ratio, the write speed, the animation clock and the
//! widget theme are floating-point or toolkit values kept by the front-end;
//! the state records only where the progress stands.
use vstd::prelude::*;
use crate::flash_helper::{FlashEvent, FlashEventModel};
use crate::flash_runner::{closed_channel_failure, closed_channel_message};
use crate::flash_writer::stage_text;
use crate::text::{chars_of, chars_of_string, push_all, string_of};
use crate::tui::{DriveInfo, DriveModel, ImageInfo, ImageModel, drives_view};

verus! {

/// Where the flash progress stands.
#[derive(Debug, Clone, Copy, PartialEq, Eq, Structural)]
pub enum ProgressMark {
    /// No progress is shown.
    Idle,
    /// Progress is shown and below full.
    Partial,
    /// Progress is shown and full.
    Full,
}

/// A message of the desktop UI.
pub enum Message {
    SelectImageClicked,
    RefreshDrivesClicked,
    TargetDriveClicked(DriveInfo),
    OpenDeviceSelection,
    CloseDeviceSelection,
    FlashClicked,
    ResetClicked,
    CancelClicked,
    CancelFlash,
    /// The picked image, if any.
    ImageSelected(Option<ImageInfo>),
    DrivesRefreshed(Vec<DriveInfo>),
    /// A progress report: bytes written, and whether the ratio reached full.
    FlashProgressUpdate(u64, bool),
    AnimationTick,
    /// A status line from the flash.
    Status(String),
    /// The flash ended: `Ok` or the error.
    FlashCompleted(Result<(), String>),
}

/// Work the front-end performs after an update.
#[derive(Debug, Clone, Copy, PartialEq, Eq, Structural)]
pub enum GuiCommand {
    Nothing,
    /// Open the image file picker and report `ImageSelected`.
    PickImage,
    /// Detect drives and report `DrivesRefreshed`.
    LoadDrives,
}

/// The desktop UI's state.
pub struct FlashKraft {
    pub selected_image: Option<ImageInfo>,
    pub selected_target: Option<DriveInfo>,
    pub available_drives: Vec<DriveInfo>,
    pub progress: ProgressMark,
    pub flash_bytes_written: u64,
    pub error_message: Option<String>,
    pub device_selection_open: bool,
    /// The flash subscription runs.
    pub flashing_active: bool,
}

/// The state as plain values.
pub struct GuiModel {
    pub image: Option<ImageModel>,
    pub target: Option<DriveModel>,
    pub drives: Seq<DriveModel>,
    pub progress: ProgressMark,
    pub bytes: u64,
    pub error: Option<Seq<char>>,
    pub selection_open: bool,
    pub active: bool,
}

impl View for FlashKraft {
    type V = GuiModel;

    open spec fn view(&self) -> GuiModel {
        GuiModel {
            image: match self.selected_image {
                Some(i) => Some(i@),
                None => None,
            },
            target: match self.selected_target {
                Some(d) => Some(d@),
                None => None,
            },
            drives: drives_view(self.available_drives@),
            progress: self.progress,
            bytes: self.flash_bytes_written,
            error: match self.error_message {
                Some(e) => Some(e@),
                None => None,
            },
            selection_open: self.device_selection_open,
            active: self.flashing_active,
        }
    }
}

/// `Message` as plain values.
pub enum MessageModel {
    SelectImageClicked,
    RefreshDrivesClicked,
    TargetDriveClicked(DriveModel),
    OpenDeviceSelection,
    CloseDeviceSelection,
    FlashClicked,
    ResetClicked,
    CancelClicked,
    CancelFlash,
    ImageSelected(Option<ImageModel>),
    DrivesRefreshed(Seq<DriveModel>),
    FlashProgressUpdate(u64, bool),
    AnimationTick,
    Status(Seq<char>),
    FlashCompleted(Result<(), Seq<char>>),
}

impl View for Message {
    type V = MessageModel;

    open spec fn view(&self) -> MessageModel {
        match self {
            Message::SelectImageClicked => MessageModel::SelectImageClicked,
            Message::RefreshDrivesClicked => MessageModel::RefreshDrivesClicked,
            Message::TargetDriveClicked(d) => MessageModel::TargetDriveClicked(d@),
            Message::OpenDeviceSelection => MessageModel::OpenDeviceSelection,
            Message::CloseDeviceSelection => MessageModel::CloseDeviceSelection,
            Message::FlashClicked => MessageModel::FlashClicked,
            Message::ResetClicked => MessageModel::ResetClicked,
            Message::CancelClicked => MessageModel::CancelClicked,
            Message::CancelFlash => MessageModel::CancelFlash,
            Message::ImageSelected(i) => MessageModel::ImageSelected(
                match i {
                    Some(x) => Some(x@),
                    None => None,
                },
            ),
            Message::DrivesRefreshed(d) => MessageModel::DrivesRefreshed(drives_view(d@)),
            Message::FlashProgressUpdate(b, f) => MessageModel::FlashProgressUpdate(*b, *f),
            Message::AnimationTick => MessageModel::AnimationTick,
            Message::Status(s) => MessageModel::Status(s@),
            Message::FlashCompleted(r) => MessageModel::FlashCompleted(
                match r {
                    Ok(()) => Ok(()),
                    Err(e) => Err(e@),
                },
            ),
        }
    }
}

/// A fresh state: nothing selected, no progress, no error.
pub open spec fn initial_gui() -> GuiModel {
    GuiModel {
        image: None,
        target: None,
        drives: Seq::empty(),
        progress: ProgressMark::Idle,
        bytes: 0,
        error: None,
        selection_open: false,
        active: false,
    }
}

/// Everything but the drive list back to the fresh state.
pub open spec fn cleared(m: GuiModel) -> GuiModel {
    GuiModel { drives: m.drives, ..initial_gui() }
}

pub open spec fn ready(m: GuiModel) -> bool {
    m.image is Some && m.target is Some
}

pub open spec fn not_ready_message() -> Seq<char> {
    "Please select both an image file and a target drive"@
}

pub open spec fn gui_cancel_message() -> Seq<char> {
    "Flash operation cancelled by user"@
}

/// The state after a message, and the command to perform.
pub open spec fn gui_step(m: GuiModel, msg: MessageModel) -> (GuiModel, GuiCommand) {
    match msg {
        MessageModel::SelectImageClicked => (m, GuiCommand::PickImage),
        MessageModel::RefreshDrivesClicked => (m, GuiCommand::LoadDrives),
        MessageModel::TargetDriveClicked(d) => (
            GuiModel { target: Some(d), error: None, selection_open: false, ..m },
            GuiCommand::Nothing,
        ),
        MessageModel::OpenDeviceSelection => (GuiModel { selection_open: true, ..m }, GuiCommand::LoadDrives),
        MessageModel::CloseDeviceSelection => (GuiModel { selection_open: false, ..m }, GuiCommand::Nothing),
        MessageModel::FlashClicked => if ready(m) {
            (GuiModel { progress: ProgressMark::Partial, error: None, active: true, ..m }, GuiCommand::Nothing)
        } else {
            (GuiModel { error: Some(not_ready_message()), ..m }, GuiCommand::Nothing)
        },
        MessageModel::ResetClicked => (cleared(m), GuiCommand::LoadDrives),
        MessageModel::CancelClicked => (cleared(m), GuiCommand::Nothing),
        MessageModel::CancelFlash => (
            GuiModel {
                active: false,
                progress: ProgressMark::Idle,
                bytes: 0,
                error: Some(gui_cancel_message()),
                ..m
            },
            GuiCommand::Nothing,
        ),
        MessageModel::ImageSelected(i) => (GuiModel { image: i, error: None, ..m }, GuiCommand::Nothing),
        MessageModel::DrivesRefreshed(d) => (GuiModel { drives: d, ..m }, GuiCommand::Nothing),
        MessageModel::FlashProgressUpdate(b, full) => (
            GuiModel {
                progress: if full {
                    ProgressMark::Full
                } else {
                    ProgressMark::Partial
                },
                bytes: b,
                ..m
            },
            GuiCommand::Nothing,
        ),
        MessageModel::AnimationTick => (m, GuiCommand::Nothing),
        MessageModel::Status(_) => (m, GuiCommand::Nothing),
        MessageModel::FlashCompleted(r) => match r {
            Ok(()) => (GuiModel { active: false, progress: ProgressMark::Full, error: None, ..m }, GuiCommand::Nothing),
            Err(e) => (GuiModel { active: false, progress: ProgressMark::Idle, error: Some(e), ..m }, GuiCommand::Nothing),
        },
    }
}

impl FlashKraft {
    /// A fresh state (see `initial_gui`).
    pub fn new() -> (r: FlashKraft)
        ensures
            r@ == initial_gui(),
    {
        let r = FlashKraft {
            selected_image: None,
            selected_target: None,
            available_drives: Vec::new(),
            progress: ProgressMark::Idle,
            flash_bytes_written: 0,
            error_message: None,
            device_selection_open: false,
            flashing_active: false,
        };
        assert(r@.drives =~= Seq::<DriveModel>::empty());
        r
    }

    /// Both an image and a target are selected.
    pub fn is_ready_to_flash(&self) -> (r: bool)
        ensures
            r == ready(self@),
    {
        self.selected_image.is_some() && self.selected_target.is_some()
    }

    /// Progress is shown.
    pub fn is_flashing(&self) -> (r: bool)
        ensures
            r == (self.progress != ProgressMark::Idle),
    {
        self.progress != ProgressMark::Idle
    }

    /// The progress is full.
    pub fn is_flash_complete(&self) -> (r: bool)
        ensures
            r == (self.progress == ProgressMark::Full),
    {
        self.progress == ProgressMark::Full
    }

    /// An error is shown.
    pub fn has_error(&self) -> (r: bool)
        ensures
            r == (self.error_message is Some),
    {
        self.error_message.is_some()
    }

    /// Back to the fresh state, keeping the drive list.
    pub fn reset(&mut self)
        ensures
            final(self)@ == cleared(old(self)@),
    {
        self.selected_image = None;
        self.selected_target = None;
        self.progress = ProgressMark::Idle;
        self.flash_bytes_written = 0;
        self.error_message = None;
        self.device_selection_open = false;
        self.flashing_active = false;
    }

    /// Drops the selections (the same as `reset`).
    pub fn cancel_selections(&mut self)
        ensures
            final(self)@ == cleared(old(self)@),
    {
        self.reset();
    }

    /// Applies a message (see `gui_step`).
    pub fn update(&mut self, message: Message) -> (r: GuiCommand)
        ensures
            (final(self)@, r) == gui_step(old(self)@, message@),
    {
        match message {
            Message::SelectImageClicked => GuiCommand::PickImage,
            Message::RefreshDrivesClicked => GuiCommand::LoadDrives,
            Message::TargetDriveClicked(d) => {
                self.selected_target = Some(d);
                self.error_message = None;
                self.device_selection_open = false;
                GuiCommand::Nothing
            },
            Message::OpenDeviceSelection => {
                self.device_selection_open = true;
                GuiCommand::LoadDrives
            },
            Message::CloseDeviceSelection => {
                self.device_selection_open = false;
                GuiCommand::Nothing
            },
            Message::FlashClicked => {
                if self.is_ready_to_flash() {
                    self.progress = ProgressMark::Partial;
                    self.error_message = None;
                    self.flashing_active = true;
                } else {
                    self.error_message = Some(string_of(&chars_of("Please select both an image file and a target drive")));
                }
                GuiCommand::Nothing
            },
            Message::ResetClicked => {
                self.reset();
                GuiCommand::LoadDrives
            },
            Message::CancelClicked => {
                self.cancel_selections();
                GuiCommand::Nothing
            },
            Message::CancelFlash => {
                self.flashing_active = false;
                self.progress = ProgressMark::Idle;
                self.flash_bytes_written = 0;
                self.error_message = Some(string_of(&chars_of("Flash operation cancelled by user")));
                GuiCommand::Nothing
            },
            Message::ImageSelected(i) => {
                self.selected_image = i;
                self.error_message = None;
                GuiCommand::Nothing
            },
            Message::DrivesRefreshed(d) => {
                self.available_drives = d;
                GuiCommand::Nothing
            },
            Message::FlashProgressUpdate(bytes, full) => {
                self.progress = if full {
                    ProgressMark::Full
                } else {
                    ProgressMark::Partial
                };
                self.flash_bytes_written = bytes;
                GuiCommand::Nothing
            },
            Message::AnimationTick => GuiCommand::Nothing,
            Message::Status(_) => GuiCommand::Nothing,
            Message::FlashCompleted(result) => {
                self.flashing_active = false;
                match result {
                    Ok(()) => {
                        self.progress = ProgressMark::Full;
                        self.error_message = None;
                    },
                    Err(e) => {
                        self.progress = ProgressMark::Idle;
                        self.error_message = Some(e);
                    },
                }
                GuiCommand::Nothing
            },
        }
    }
}

/// Resetting and dropping the selections leave the same state, and neither
/// leaves the state ready to flash.
pub proof fn law_reset_and_cancel_agree(m: GuiModel)
    ensures
        gui_step(m, MessageModel::ResetClicked).0 == gui_step(m, MessageModel::CancelClicked).0,
        !ready(cleared(m)),
        cleared(m).drives == m.drives,
{
}

/// A flash starts only when image and target are selected; otherwise the
/// state is unchanged but for the error that says so.
pub proof fn law_flash_needs_selections(m: GuiModel)
    ensures
        gui_step(m, MessageModel::FlashClicked).0.active <==> (ready(m) || m.active),
        !ready(m) ==> gui_step(m, MessageModel::FlashClicked).0 == (GuiModel { error: Some(not_ready_message()), ..m }),
{
}

/// The end of a flash always stops the subscription; success shows full
/// progress and no error, failure shows the error and no progress.
pub proof fn law_completion_stops_flashing(m: GuiModel, r: Result<(), Seq<char>>)
    ensures
        !gui_step(m, MessageModel::FlashCompleted(r)).0.active,
        r is Ok ==> gui_step(m, MessageModel::FlashCompleted(r)).0.progress == ProgressMark::Full
            && gui_step(m, MessageModel::FlashCompleted(r)).0.error is None,
        r matches Err(e) ==> gui_step(m, MessageModel::FlashCompleted(r)).0.error == Some(e)
            && gui_step(m, MessageModel::FlashCompleted(r)).0.progress == ProgressMark::Idle,
{
}

// ---------------------------------------------------------------------------
// The flash subscription
// ---------------------------------------------------------------------------

/// The message a pipeline event becomes, and whether the subscription ends
/// with it.  Stages are announced by their status text; `full` is whether
/// the front-end's progress ratio reached one.
pub open spec fn event_step(ev: FlashEventModel, full: bool) -> (MessageModel, bool) {
    match ev {
        FlashEventModel::Stage(s) => (MessageModel::Status(stage_text(s)), false),
        FlashEventModel::Progress { bytes_written, total_bytes } => (
            MessageModel::FlashProgressUpdate(bytes_written, full),
            false,
        ),
        FlashEventModel::Log(m) => (MessageModel::Status(m), false),
        FlashEventModel::Done => (MessageModel::FlashCompleted(Ok(())), true),
        FlashEventModel::Error(e) => (MessageModel::FlashCompleted(Err(e)), true),
    }
}

/// The message for a pipeline event (see `event_step`).
pub fn event_message(ev: FlashEvent, full: bool) -> (r: (Message, bool))
    ensures
        (r.0@, r.1) == event_step(ev@, full),
{
    match ev {
        FlashEvent::Stage(s) => (Message::Status(s.to_string()), false),
        FlashEvent::Progress { bytes_written, total_bytes } => (
            Message::FlashProgressUpdate(bytes_written, full),
            false,
        ),
        FlashEvent::Log(m) => (Message::Status(m), false),
        FlashEvent::Done => (Message::FlashCompleted(Ok(())), true),
        FlashEvent::Error(e) => (Message::FlashCompleted(Err(e)), true),
    }
}

/// The message when the pipeline's channel closes without a final event: a
/// failure that reads as a cancellation when the cancel flag is set.
pub fn channel_closed_message(cancelled: bool) -> (r: Message)
    ensures
        r@ == MessageModel::FlashCompleted(Err(closed_channel_message(cancelled))),
{
    Message::FlashCompleted(Err(closed_channel_failure(cancelled)))
}

/// What the image's metadata allows: its size, or the failure reported
/// before the pipeline starts (an empty image, or the metadata error's text).
pub open spec fn image_size_outcome(meta: Result<u64, Seq<char>>) -> Result<u64, Seq<char>> {
    match meta {
        Ok(n) => if n == 0 {
            Err("Image file is empty"@)
        } else {
            Ok(n)
        },
        Err(e) => Err("Cannot read image file: "@ + e),
    }
}

/// The image size the pipeline starts with (see `image_size_outcome`).
pub fn image_size_check(meta: Result<u64, String>) -> (r: Result<u64, String>)
    ensures
        match (r, meta) {
            (Ok(n), Ok(m)) => image_size_outcome(Ok(m)) == Ok::<u64, Seq<char>>(n),
            (Err(e), Ok(m)) => image_size_outcome(Ok(m)) == Err::<u64, Seq<char>>(e@),
            (Ok(n), Err(x)) => image_size_outcome(Err(x@)) == Ok::<u64, Seq<char>>(n),
            (Err(e), Err(x)) => image_size_outcome(Err(x@)) == Err::<u64, Seq<char>>(e@),
        },
{
    match meta {
        Ok(n) => if n == 0 {
            Err(string_of(&chars_of("Image file is empty")))
        } else {
            Ok(n)
        },
        Err(e) => {
            let mut out = chars_of("Cannot read image file: ");
            push_all(&mut out, &chars_of_string(&e));
            Err(string_of(&out))
        },
    }
}

/// Once the pipeline reports completion, the state stops flashing with full
/// progress and no error; once it reports a failure, the state stops with
/// that error shown.
pub proof fn law_final_events_end_flashing(m: GuiModel, ev: FlashEventModel, full: bool)
    requires
        ev is Done || ev is Error,
    ensures
        event_step(ev, full).1,
        !gui_step(m, event_step(ev, full).0).0.active,
        ev is Done ==> gui_step(m, event_step(ev, full).0).0.progress == ProgressMark::Full
            && gui_step(m, event_step(ev, full).0).0.error is None,
        ev is Error ==> gui_step(m, event_step(ev, full).0).0.error == Some(ev->Error_0),
{
}

/// What the flash subscription is told: a pipeline event (with whether the
/// front-end's progress ratio reached one), or that the pipeline's channel
/// closed (with whether the cancel flag was set).
pub enum StreamInput {
    Event(FlashEvent, bool),
    Closed(bool),
}

pub enum StreamInputModel {
    Event(FlashEventModel, bool),
    Closed(bool),
}

impl View for StreamInput {
    type V = StreamInputModel;

    open spec fn view(&self) -> StreamInputModel {
        match self {
            StreamInput::Event(ev, full) => StreamInputModel::Event(ev@, *full),
            StreamInput::Closed(c) => StreamInputModel::Closed(*c),
        }
    }
}

/// The flash subscription's state: whether it has yielded its final
/// message.
pub struct FlashStream {
    pub finished: bool,
}

/// The subscription's start: the image-size failure, final, when the image
/// is empty or unreadable; nothing otherwise.
pub open spec fn stream_start(meta: Result<u64, Seq<char>>) -> (bool, Option<MessageModel>) {
    match image_size_outcome(meta) {
        Err(e) => (true, Some(MessageModel::FlashCompleted(Err(e)))),
        Ok(_) => (false, None),
    }
}

/// One step of the subscription: once finished it yields nothing more;
/// otherwise an event yields its message (finishing on a final one), and a
/// closed channel yields the closed-channel failure and finishes.
pub open spec fn stream_step(finished: bool, input: StreamInputModel) -> (bool, Option<MessageModel>) {
    if finished {
        (true, None)
    } else {
        match input {
            StreamInputModel::Event(ev, full) => (event_step(ev, full).1, Some(event_step(ev, full).0)),
            StreamInputModel::Closed(c) => (true, Some(MessageModel::FlashCompleted(Err(closed_channel_message(c))))),
        }
    }
}

impl FlashStream {
    /// The subscription's start (see `stream_start`).
    pub fn start(meta: Result<u64, String>) -> (r: (FlashStream, Option<Message>))
        ensures
            (r.0.finished, match r.1 {
                Some(m) => Some(m@),
                None => None,
            }) == stream_start(match meta {
                Ok(n) => Ok(n),
                Err(e) => Err(e@),
            }),
    {
        match image_size_check(meta) {
            Err(e) => (FlashStream { finished: true }, Some(Message::FlashCompleted(Err(e)))),
            Ok(_) => (FlashStream { finished: false }, None),
        }
    }

    /// One step of the subscription (see `stream_step`).
    pub fn step(&mut self, input: StreamInput) -> (r: Option<Message>)
        ensures
            (final(self).finished, match r {
                Some(m) => Some(m@),
                None => None,
            }) == stream_step(old(self).finished, input@),
    {
        if self.finished {
            return None;
        }
        match input {
            StreamInput::Event(ev, full) => {
                let (msg, stop) = event_message(ev, full);
                self.finished = stop;
                Some(msg)
            },
            StreamInput::Closed(c) => {
                self.finished = true;
                Some(channel_closed_message(c))
            },
        }
    }
}

/// The messages a subscription in state `finished` yields for the inputs,
/// in order.
pub open spec fn stream_run(finished: bool, inputs: Seq<StreamInputModel>) -> Seq<MessageModel>
    decreases inputs.len(),
{
    if inputs.len() == 0 {
        Seq::empty()
    } else {
        let (f, out) = stream_step(finished, inputs[0]);
        let rest = stream_run(f, inputs.drop_first());
        match out {
            Some(m) => seq![m] + rest,
            None => rest,
        }
    }
}

/// Everything a subscription yields: its start, then its steps.
pub open spec fn stream_messages(meta: Result<u64, Seq<char>>, inputs: Seq<StreamInputModel>) -> Seq<MessageModel> {
    let (f, first) = stream_start(meta);
    match first {
        Some(m) => seq![m] + stream_run(f, inputs),
        None => stream_run(f, inputs),
    }
}

/// A message that ends the flash.
pub open spec fn is_final(msg: MessageModel) -> bool {
    msg is FlashCompleted
}

/// At most one final message, and nothing after it.
pub open spec fn ends_at_final(r: Seq<MessageModel>) -> bool {
    forall|i: int| 0 <= i < r.len() && is_final(#[trigger] r[i]) ==> i == r.len() - 1
}

proof fn lemma_stream_run(finished: bool, inputs: Seq<StreamInputModel>)
    ensures
        finished ==> stream_run(finished, inputs).len() == 0,
        ends_at_final(stream_run(finished, inputs)),
    decreases inputs.len(),
{
    if inputs.len() > 0 {
        let (f, out) = stream_step(finished, inputs[0]);
        lemma_stream_run(f, inputs.drop_first());
        let rest = stream_run(f, inputs.drop_first());
        if let Some(m) = out {
            let r = seq![m] + rest;
            assert forall|i: int| 0 <= i < r.len() && is_final(#[trigger] r[i]) implies i == r.len() - 1 by {
                if i == 0 {
                    if let StreamInputModel::Event(ev, full) = inputs[0] {
                        assert(f == event_step(ev, full).1);
                    }
                    assert(f);
                    assert(rest.len() == 0);
                } else {
                    assert(r[i] == rest[i - 1]);
                }
            }
        }
    }
}

/// The flash subscription yields at most one final message (a completion or
/// a failure), and nothing after it; once it has ended, a closed channel
/// yields a final message too.
pub proof fn law_one_final_message(meta: Result<u64, Seq<char>>, inputs: Seq<StreamInputModel>)
    ensures
        ends_at_final(stream_messages(meta, inputs)),
        inputs.len() > 0 && inputs.last() is Closed ==> stream_messages(meta, inputs).len() > 0 && is_final(
            stream_messages(meta, inputs).last(),
        ),
{
    let (f, first) = stream_start(meta);
    lemma_stream_run(f, inputs);
    let run = stream_run(f, inputs);
    if let Some(m) = first {
        let r = seq![m] + run;
        assert(f);
        assert forall|i: int| 0 <= i < r.len() && is_final(#[trigger] r[i]) implies i == r.len() - 1 by {
            if i > 0 {
                assert(r[i] == run[i - 1]);
            }
        }
    }
    if inputs.len() > 0 && inputs.last() is Closed {
        lemma_closed_last_final(f, inputs);
        if let Some(m) = first {
            assert((seq![m] + run).last() == if run.len() > 0 { run.last() } else { m });
        }
    }
}

proof fn lemma_closed_last_final(finished: bool, inputs: Seq<StreamInputModel>)
    requires
        inputs.len() > 0,
        inputs.last() is Closed,
    ensures
        !finished ==> stream_run(finished, inputs).len() > 0,
        stream_run(finished, inputs).len() > 0 ==> is_final(stream_run(finished, inputs).last()),
    decreases inputs.len(),
{
    let (f, out) = stream_step(finished, inputs[0]);
    let rest = stream_run(f, inputs.drop_first());
    if inputs.len() > 1 {
        assert(inputs.drop_first().last() == inputs.last());
        lemma_closed_last_final(f, inputs.drop_first());
        if let Some(m) = out {
            assert((seq![m] + rest).last() == if rest.len() > 0 { rest.last() } else { m });
            if rest.len() == 0 {
                lemma_stream_run(f, inputs.drop_first());
                if let StreamInputModel::Event(ev, full) = inputs[0] {
                    assert(f == event_step(ev, full).1);
                }
            }
        }
    } else {
        assert(inputs[0] == inputs.last());
        assert(rest.len() == 0);
    }
}

} // verus!
