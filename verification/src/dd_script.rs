//! Flashing through a root shell script running `dd`.
//!
//! The script is written to a file and run through `pkexec`; its standard
//! output carries `STATUS:` lines and `dd`'s progress reports, which `dd`
//! separates with carriage returns.  This module writes the script and reads
//! that output; running the script is the caller's part.
use vstd::prelude::*;
use crate::flash_runner::{signed_decimal, signed_text};
use crate::text::{
    chars_of, chars_of_string, contains, contains_exec, lines, lines_exec, parse_u64, parse_u64_exec, push_all,
    split_char, split_char_exec, split_ws, starts_with, starts_with_exec, string_of, views, words,
};

verus! {

/// The script's text up to the image path.
pub open spec fn script_head() -> Seq<char> {
    "#!/bin/bash\nset -e\n\nIMAGE=\""@
}

/// The script's text between the image path and the device path.
pub open spec fn script_mid() -> Seq<char> {
    "\"\nDEVICE=\""@
}

/// The script's text after the device path: unmount every partition, write
/// with `dd`, sync, reporting each step on a `STATUS:` line.
pub open spec fn script_tail() -> Seq<char> {
    "\"\n\necho \"STATUS:Starting flash operation\"\n\n# Unmount all partitions\nfor part in \"${DEVICE}\"*[0-9] \"${DEVICE}p\"*[0-9]; do\n    if [ -e \"$part\" ]; then\n        if mountpoint -q \"$part\" 2>/dev/null || grep -qs \"$part\" /proc/mounts; then\n            echo \"STATUS:Unmounting $part\"\n            umount \"$part\" 2>/dev/null || true\n        fi\n    fi\ndone\n\n# Get image size\nIMAGE_SIZE=$(stat -c%s \"$IMAGE\")\necho \"STATUS:Image size: $IMAGE_SIZE bytes\"\n\n# Write the image using dd with progress\necho \"STATUS:Writing image to device...\"\ndd if=\"$IMAGE\" of=\"$DEVICE\" bs=4M status=progress oflag=direct conv=fsync\n\n# Sync\necho \"STATUS:Syncing data to disk...\"\nsync\n\necho \"STATUS:Flash operation completed!\"\n"@
}

/// The flash script for an image and a device.
pub fn flash_script(image_path: &str, device_path: &str) -> (r: String)
    ensures
        r@ == script_head() + image_path@ + script_mid() + device_path@ + script_tail(),
{
    let mut v = chars_of("#!/bin/bash\nset -e\n\nIMAGE=\"");
    push_all(&mut v, &chars_of(image_path));
    push_all(&mut v, &chars_of("\"\nDEVICE=\""));
    push_all(&mut v, &chars_of(device_path));
    push_all(&mut v, &chars_of("\"\n\necho \"STATUS:Starting flash operation\"\n\n# Unmount all partitions\nfor part in \"${DEVICE}\"*[0-9] \"${DEVICE}p\"*[0-9]; do\n    if [ -e \"$part\" ]; then\n        if mountpoint -q \"$part\" 2>/dev/null || grep -qs \"$part\" /proc/mounts; then\n            echo \"STATUS:Unmounting $part\"\n            umount \"$part\" 2>/dev/null || true\n        fi\n    fi\ndone\n\n# Get image size\nIMAGE_SIZE=$(stat -c%s \"$IMAGE\")\necho \"STATUS:Image size: $IMAGE_SIZE bytes\"\n\n# Write the image using dd with progress\necho \"STATUS:Writing image to device...\"\ndd if=\"$IMAGE\" of=\"$DEVICE\" bs=4M status=progress oflag=direct conv=fsync\n\n# Sync\necho \"STATUS:Syncing data to disk...\"\nsync\n\necho \"STATUS:Flash operation completed!\"\n"));
    string_of(&v)
}

/// The reports completed by a carriage return, and the text after the last
/// one (`split('\r')`: all parts but the last, and the last).
pub open spec fn carriage_parts(acc: Seq<char>) -> (Seq<Seq<char>>, Seq<char>) {
    let parts = split_char(acc, '\r');
    if parts.len() > 1 {
        (parts.drop_last(), parts.last())
    } else {
        (Seq::empty(), acc)
    }
}

/// Splits collected output at carriage returns (see `carriage_parts`).
pub fn split_reports(acc: &str) -> (r: (Vec<String>, String))
    ensures
        crate::file_explorer::texts_view(r.0@) == carriage_parts(acc@).0,
        r.1@ == carriage_parts(acc@).1,
{
    let parts = split_char_exec(&chars_of(acc), '\r');
    let ghost pv = views(parts@);
    if parts.len() > 1 {
        let mut done: Vec<String> = Vec::new();
        let mut i: usize = 0;
        while i + 1 < parts.len()
            invariant
                i + 1 <= parts.len(),
                pv == views(parts@),
                crate::file_explorer::texts_view(done@) =~= pv.take(i as int),
            decreases parts.len() - i,
        {
            done.push(string_of(&parts[i]));
            assert(pv[i as int] == parts@[i as int]@);
            assert(pv.take(i as int + 1) =~= pv.take(i as int).push(pv[i as int]));
            i += 1;
        }
        assert(pv.take(i as int) =~= pv.drop_last());
        assert(pv.last() == parts@[parts.len() - 1]@);
        (done, string_of(&parts[parts.len() - 1]))
    } else {
        (Vec::new(), string_of(&chars_of(acc)))
    }
}

/// A `dd` report read from one part: the bytes written (its first word) and
/// the speed value as written (the word before the last, decimal commas made
/// points).  Parts without `bytes`, and on the output stream also `STATUS:`
/// lines, are no report.
pub open spec fn dd_report(part: Seq<char>, skip_status: bool) -> Option<(u64, Seq<char>)> {
    let w = words(part);
    if part.len() == 0 || !contains(part, "bytes"@) || (skip_status && starts_with(part, "STATUS:"@)) {
        None
    } else if w.len() == 0 || parse_u64(w[0]) is None {
        None
    } else {
        Some((
            parse_u64(w[0])->0,
            if w.len() >= 2 {
                w[w.len() - 2].map_values(|c: char| if c == ',' { '.' } else { c })
            } else {
                Seq::empty()
            },
        ))
    }
}

/// Reads a `dd` report from one part (see `dd_report`).
pub fn read_dd_report(part: &str, skip_status: bool) -> (r: Option<(u64, String)>)
    ensures
        match r {
            Some((b, s)) => dd_report(part@, skip_status) == Some((b, s@)),
            None => dd_report(part@, skip_status) is None,
        },
{
    let p = chars_of(part);
    let bytes = chars_of("bytes");
    let status = chars_of("STATUS:");
    if p.len() == 0 || !contains_exec(&p, &bytes) || (skip_status && starts_with_exec(&p, &status)) {
        return None;
    }
    let w = split_ws(&p);
    let ghost wv = views(w@);
    if w.len() == 0 {
        return None;
    }
    assert(wv[0] == w@[0]@);
    let b = match parse_u64_exec(&w[0]) {
        Some(b) => b,
        None => return None,
    };
    let mut speed: Vec<char> = Vec::new();
    if w.len() >= 2 {
        let t = &w[w.len() - 2];
        assert(wv[w.len() - 2] == t@);
        let mut k: usize = 0;
        while k < t.len()
            invariant
                k <= t.len(),
                speed@ =~= t@.take(k as int).map_values(|c: char| if c == ',' { '.' } else { c }),
            decreases t.len() - k,
        {
            let c = t[k];
            speed.push(if c == ',' { '.' } else { c });
            k += 1;
        }
        assert(t@.take(t.len() as int) =~= t@);
    }
    Some((b, string_of(&speed)))
}

/// The messages of the `STATUS:` lines in collected output, in order.
pub open spec fn status_messages(ls: Seq<Seq<char>>) -> Seq<Seq<char>>
    decreases ls.len(),
{
    if ls.len() == 0 {
        Seq::empty()
    } else {
        let rest = status_messages(ls.drop_first());
        if starts_with(ls[0], "STATUS:"@) {
            seq![ls[0].skip(7)] + rest
        } else {
            rest
        }
    }
}

/// The messages of the `STATUS:` lines in collected output.
pub fn status_lines(acc: &str) -> (r: Vec<String>)
    ensures
        crate::file_explorer::texts_view(r@) == status_messages(lines(acc@)),
{
    let ls = lines_exec(&chars_of(acc));
    let ghost lv = views(ls@);
    let prefix = chars_of("STATUS:");
    proof {
        reveal_strlit("STATUS:");
    }
    let mut out: Vec<String> = Vec::new();
    let mut i: usize = ls.len();
    assert(lv.skip(i as int) =~= Seq::<Seq<char>>::empty());
    assert(crate::file_explorer::texts_view(out@) =~= Seq::<Seq<char>>::empty());
    while i > 0
        invariant
            i <= ls.len(),
            lv == views(ls@),
            lv == lines(acc@),
            prefix@ == "STATUS:"@,
            prefix@.len() == 7,
            crate::file_explorer::texts_view(out@) == status_messages(lv.skip(i as int)),
        decreases i,
    {
        let l = &ls[i - 1];
        assert(lv[i - 1] == l@);
        assert(lv.skip(i as int - 1).drop_first() =~= lv.skip(i as int));
        assert(lv.skip(i as int - 1)[0] == l@);
        if starts_with_exec(l, &prefix) {
            let mut m: Vec<char> = Vec::new();
            let mut k: usize = 7;
            while k < l.len()
                invariant
                    7 <= k <= l.len(),
                    m@ =~= l@.subrange(7, k as int),
                decreases l.len() - k,
            {
                m.push(l[k]);
                k += 1;
            }
            let ghost before = crate::file_explorer::texts_view(out@);
            out.insert(0, string_of(&m));
            assert(crate::file_explorer::texts_view(out@) =~= seq![l@.skip(7)] + before);
        }
        i -= 1;
    }
    assert(lv.skip(0) =~= lv);
    out
}

// ---------------------------------------------------------------------------
// How the run ends
// ---------------------------------------------------------------------------

/// `{:?}` of an exit code: `Some(<code>)` or `None`.
pub open spec fn code_debug_text(code: Option<i32>) -> Seq<char> {
    match code {
        Some(c) => "Some("@ + signed_decimal(c as int) + ")"@,
        None => "None"@,
    }
}

/// How the script's run ends: a cancellation wins; else success when the
/// script exited with code 0, a failure naming the exit code (absent when
/// a signal ended it) otherwise.
pub open spec fn dd_result(cancelled: bool, exit_code: Option<i32>) -> Result<(), Seq<char>> {
    if cancelled {
        Err("Flash operation cancelled by user"@)
    } else if exit_code == Some(0i32) {
        Ok(())
    } else {
        Err("Flash operation failed with exit code: "@ + code_debug_text(exit_code))
    }
}

/// How the script's run ends (see `dd_result`).
pub fn dd_outcome(cancelled: bool, exit_code: Option<i32>) -> (r: Result<(), String>)
    ensures
        match r {
            Ok(()) => dd_result(cancelled, exit_code) == Ok::<(), Seq<char>>(()),
            Err(m) => dd_result(cancelled, exit_code) == Err::<(), Seq<char>>(m@),
        },
{
    if cancelled {
        return Err(string_of(&chars_of("Flash operation cancelled by user")));
    }
    if exit_code == Some(0i32) {
        return Ok(());
    }
    match exit_code {
        Some(c) => {
            let mut m = chars_of("Flash operation failed with exit code: ");
            push_all(&mut m, &chars_of("Some("));
            push_all(&mut m, &signed_text(c));
            push_all(&mut m, &chars_of(")"));
            assert(m@ =~= "Flash operation failed with exit code: "@ + code_debug_text(exit_code));
            Err(string_of(&m))
        },
        None => {
            let mut m = chars_of("Flash operation failed with exit code: ");
            push_all(&mut m, &chars_of("None"));
            Err(string_of(&m))
        },
    }
}

// ---------------------------------------------------------------------------
// Before the run: the image's size
// ---------------------------------------------------------------------------

/// The image's size from reading its metadata: the size, or the reason the
/// metadata could not be read, prefixed as the user sees it.
pub open spec fn image_size_result(metadata: Result<u64, Seq<char>>) -> Result<u64, Seq<char>> {
    match metadata {
        Ok(n) => Ok(n),
        Err(e) => Err("Cannot read image file: "@ + e),
    }
}

/// The image's size, or the message when its metadata could not be read
/// (see `image_size_result`).
pub fn image_size_from_metadata(metadata: Result<u64, String>) -> (r: Result<u64, String>)
    ensures
        match (r, metadata) {
            (Ok(n), Ok(m)) => image_size_result(Ok(m)) == Ok::<u64, Seq<char>>(n),
            (Err(msg), Err(e)) => image_size_result(Err(e@)) == Err::<u64, Seq<char>>(msg@),
            _ => false,
        },
{
    match metadata {
        Ok(n) => Ok(n),
        Err(e) => {
            let mut m = chars_of("Cannot read image file: ");
            push_all(&mut m, &chars_of(&e));
            Err(string_of(&m))
        },
    }
}

// ---------------------------------------------------------------------------
// While the script runs
// ---------------------------------------------------------------------------

/// What asking whether the script has exited gave.
#[derive(PartialEq, Eq, Debug, Clone)]
pub enum ChildPoll {
    /// Still running.
    Running,
    /// It has exited.
    Exited,
    /// The question failed, for this reason.
    Failed(String),
}

pub enum ChildPollModel {
    Running,
    Exited,
    Failed(Seq<char>),
}

impl View for ChildPoll {
    type V = ChildPollModel;

    open spec fn view(&self) -> ChildPollModel {
        match self {
            ChildPoll::Running => ChildPollModel::Running,
            ChildPoll::Exited => ChildPollModel::Exited,
            ChildPoll::Failed(e) => ChildPollModel::Failed(e@),
        }
    }
}

/// What the watcher does next.
#[derive(PartialEq, Eq, Debug, Clone)]
pub enum WatchAction {
    /// Kill the script, remove it, and end with the cancellation message.
    Cancel,
    /// Stop watching: wait for the exit status and judge it.
    Collect,
    /// End with this error.
    Abort(String),
    /// Forward the pending updates, pause, and ask again.
    Forward,
}

pub enum WatchActionModel {
    Cancel,
    Collect,
    Abort(Seq<char>),
    Forward,
}

impl View for WatchAction {
    type V = WatchActionModel;

    open spec fn view(&self) -> WatchActionModel {
        match self {
            WatchAction::Cancel => WatchActionModel::Cancel,
            WatchAction::Collect => WatchActionModel::Collect,
            WatchAction::Abort(m) => WatchActionModel::Abort(m@),
            WatchAction::Forward => WatchActionModel::Forward,
        }
    }
}

/// One round of watching the script: a cancellation request is honoured
/// first, whatever the script's state; then an exited script is collected,
/// a failed question ends the run, and a running one has its updates
/// forwarded.
pub open spec fn watch_decision(cancelled: bool, poll: ChildPollModel) -> WatchActionModel {
    if cancelled {
        WatchActionModel::Cancel
    } else {
        match poll {
            ChildPollModel::Exited => WatchActionModel::Collect,
            ChildPollModel::Running => WatchActionModel::Forward,
            ChildPollModel::Failed(e) => WatchActionModel::Abort("Error checking process status: "@ + e),
        }
    }
}

/// One round of watching the script (see `watch_decision`).
pub fn watch_step(cancelled: bool, poll: ChildPoll) -> (r: WatchAction)
    ensures
        r@ == watch_decision(cancelled, poll@),
{
    if cancelled {
        return WatchAction::Cancel;
    }
    match poll {
        ChildPoll::Exited => WatchAction::Collect,
        ChildPoll::Running => WatchAction::Forward,
        ChildPoll::Failed(e) => {
            let mut m = chars_of("Error checking process status: ");
            push_all(&mut m, &chars_of(&e));
            WatchAction::Abort(string_of(&m))
        },
    }
}

/// A pending progress or status update reaches the user only while no
/// cancellation has been asked for.
pub fn forward_update(cancelled: bool) -> (r: bool)
    ensures
        r == !cancelled,
{
    !cancelled
}

/// How a watched run ends, given for each round whether a cancellation was
/// asked for and what polling the script gave, and the exit code it ends
/// with once collected: `None` while every round so far forwarded.
pub open spec fn watched_run(rounds: Seq<(bool, ChildPollModel)>, exit_code: Option<i32>) -> Option<
    Result<(), Seq<char>>,
>
    decreases rounds.len(),
{
    if rounds.len() == 0 {
        None
    } else {
        match watch_decision(rounds[0].0, rounds[0].1) {
            WatchActionModel::Cancel => Some(dd_result(true, exit_code)),
            WatchActionModel::Collect => Some(dd_result(false, exit_code)),
            WatchActionModel::Abort(m) => Some(Err(m)),
            WatchActionModel::Forward => watched_run(rounds.drop_first(), exit_code),
        }
    }
}

/// Of a run whose rounds before round `k` all found the script running
/// with no cancellation asked for: a cancellation asked for in round `k`
/// ends it with the cancellation message, whatever the script's state; and
/// when round `k` does not forward, the run succeeds exactly when no
/// cancellation was asked for, the script had exited, and its exit code
/// is 0.
pub proof fn law_watched_run(rounds: Seq<(bool, ChildPollModel)>, exit_code: Option<i32>, k: int)
    requires
        0 <= k < rounds.len(),
        forall|i: int| 0 <= i < k ==> !(#[trigger] rounds[i]).0 && rounds[i].1 is Running,
    ensures
        rounds[k].0 ==> watched_run(rounds, exit_code) == Some(Err::<(), Seq<char>>("Flash operation cancelled by user"@)),
        rounds[k].0 || !(rounds[k].1 is Running) ==> (watched_run(rounds, exit_code) == Some(Ok::<(), Seq<char>>(()))
            <==> (!rounds[k].0 && rounds[k].1 is Exited && exit_code == Some(0i32))),
    decreases k,
{
    if k > 0 {
        assert(!rounds[0].0 && rounds[0].1 is Running);
        let rest = rounds.drop_first();
        assert forall|i: int| 0 <= i < k - 1 implies !(#[trigger] rest[i]).0 && rest[i].1 is Running by {
            assert(rest[i] == rounds[i + 1]);
        }
        law_watched_run(rest, exit_code, k - 1);
        assert(watch_decision(rounds[0].0, rounds[0].1) == WatchActionModel::Forward);
        assert(watched_run(rounds, exit_code) == watched_run(rest, exit_code));
        assert(rest[k - 1] == rounds[k]);
    } else {
        let d = watch_decision(rounds[0].0, rounds[0].1);
        assert(watched_run(rounds, exit_code) == match d {
            WatchActionModel::Cancel => Some(dd_result(true, exit_code)),
            WatchActionModel::Collect => Some(dd_result(false, exit_code)),
            WatchActionModel::Abort(m) => Some(Err(m)),
            WatchActionModel::Forward => watched_run(rounds.drop_first(), exit_code),
        });
        if rounds[0].0 {
            assert(d == WatchActionModel::Cancel);
        } else {
            match rounds[0].1 {
                ChildPollModel::Running => {
                    assert(d == WatchActionModel::Forward);
                },
                ChildPollModel::Exited => {
                    assert(d == WatchActionModel::Collect);
                },
                ChildPollModel::Failed(e) => {
                    assert(d == WatchActionModel::Abort("Error checking process status: "@ + e));
                },
            }
        }
    }
}

} // verus!
