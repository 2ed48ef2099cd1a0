//! What the written stick holds, by kind of file.
//!
//! Files are grouped by extension into a fixed set of categories, each with
//! its icon; the completion screen shows how many files of each category the
//! stick holds.
use vstd::prelude::*;
use crate::external::{is_ascii_text, lowercase_of, to_lowercase};
use crate::text::{chars_of, chars_of_string, decimal, decimal_exec, eq_chars, push_all, string_of};
use crate::file_explorer::{last_dot, as_double, round_div, double_value, round_div_exec};
use crate::tui::{UsbEntry, UsbEntryModel, usb_view};
use crate::text::{digit_char, char_from_ascii};

verus! {

/// The text after the last dot of a name, or the whole name without a dot
/// (`rsplit('.').next()`).
pub open spec fn last_segment(name: Seq<char>) -> Seq<char> {
    match last_dot(name) {
        Some(i) => name.subrange(i + 1, name.len() as int),
        None => name,
    }
}

/// The category of a lower-cased extension.
pub open spec fn category_of_ext(e: Seq<char>) -> Seq<char> {
    if e == "iso"@ || e == "img"@ || e == "bin"@ || e == "dmg"@ || e == "vhd"@ || e == "vmdk"@ {
        "Disk Images"@
    } else if e == "exe"@ || e == "msi"@ || e == "deb"@ || e == "rpm"@ || e == "apk"@ || e == "appimage"@ {
        "Executables"@
    } else if e == "sh"@ || e == "bat"@ || e == "cmd"@ || e == "ps1"@ || e == "py"@ || e == "rb"@ || e == "pl"@ {
        "Scripts"@
    } else if e == "txt"@ || e == "md"@ || e == "rst"@ || e == "log"@ || e == "cfg"@ || e == "conf"@ || e == "ini"@ || e == "toml"@ || e == "yaml"@ || e == "yml"@ || e == "json"@ || e == "xml"@ {
        "Text / Config"@
    } else if e == "jpg"@ || e == "jpeg"@ || e == "png"@ || e == "gif"@ || e == "svg"@ || e == "bmp"@ || e == "ico"@ || e == "webp"@ {
        "Images"@
    } else if e == "mp4"@ || e == "mkv"@ || e == "avi"@ || e == "mov"@ || e == "wmv"@ || e == "flv"@ || e == "webm"@ {
        "Video"@
    } else if e == "mp3"@ || e == "flac"@ || e == "ogg"@ || e == "wav"@ || e == "aac"@ || e == "m4a"@ {
        "Audio"@
    } else if e == "zip"@ || e == "tar"@ || e == "gz"@ || e == "bz2"@ || e == "xz"@ || e == "7z"@ || e == "rar"@ || e == "zst"@ {
        "Archives"@
    } else if e == "efi"@ || e == "sys"@ || e == "ko"@ || e == "so"@ || e == "dll"@ || e == "o"@ || e == "a"@ || e == "lib"@ {
        "System / Libs"@
    } else {
        "Other"@
    }
}

/// The category of a file, by its lower-cased last dot-segment.
pub open spec fn category_of(name: Seq<char>) -> Seq<char> {
    category_of_ext(lowercase_of(last_segment(name)))
}

/// The icon of a category.
pub open spec fn category_icon(c: Seq<char>) -> Seq<char> {
    if c == "Disk Images"@ {
        "💿"@
    } else if c == "Executables"@ {
        "⚙"@
    } else if c == "Scripts"@ {
        "📜"@
    } else if c == "Text / Config"@ {
        "📄"@
    } else if c == "Images"@ {
        "🖼"@
    } else if c == "Video"@ {
        "🎬"@
    } else if c == "Audio"@ {
        "🎵"@
    } else if c == "Archives"@ {
        "📦"@
    } else if c == "System / Libs"@ {
        "🔧"@
    } else {
        "📄"@
    }
}

/// The categories, in the order of their labels.
pub open spec fn category_labels() -> Seq<Seq<char>> {
    seq!["Archives"@, "Audio"@, "Disk Images"@, "Executables"@, "Images"@, "Other"@, "Scripts"@, "System / Libs"@, "Text / Config"@, "Video"@]
}

/// `ext` is the text `lit`.
fn is_text(ext: &Vec<char>, lit: &str) -> (r: bool)
    ensures
        r == (ext@ == lit@),
{
    eq_chars(ext, &chars_of(lit))
}

/// The text after the last dot of a name (see `last_segment`).
fn last_segment_exec(name: &Vec<char>) -> (r: Vec<char>)
    ensures
        r@ == last_segment(name@),
{
    let mut j: usize = name.len();
    assert(name@.take(j as int) =~= name@);
    while j > 0 && name[j - 1] != '.'
        invariant
            j <= name.len(),
            last_dot(name@) == last_dot(name@.take(j as int)),
        decreases j,
    {
        assert(name@.take(j as int).drop_last() =~= name@.take(j as int - 1));
        j -= 1;
    }
    if j == 0 {
        assert(name@.take(0) =~= Seq::<char>::empty());
        return name.clone();
    }
    assert(name@.take(j as int).last() == '.');
    let mut r: Vec<char> = Vec::new();
    let mut k = j;
    while k < name.len()
        invariant
            j <= k <= name.len(),
            r@ =~= name@.subrange(j as int, k as int),
        decreases name.len() - k,
    {
        r.push(name[k]);
        k += 1;
    }
    r
}

fn category_of_ext_exec(e: &Vec<char>) -> (r: &'static str)
    ensures
        r@ == category_of_ext(e@),
{
    if is_text(&e, "iso")
        || is_text(&e, "img")
        || is_text(&e, "bin")
        || is_text(&e, "dmg")
        || is_text(&e, "vhd")
        || is_text(&e, "vmdk") {
        "Disk Images"
    } else if is_text(&e, "exe")
        || is_text(&e, "msi")
        || is_text(&e, "deb")
        || is_text(&e, "rpm")
        || is_text(&e, "apk")
        || is_text(&e, "appimage") {
        "Executables"
    } else if is_text(&e, "sh")
        || is_text(&e, "bat")
        || is_text(&e, "cmd")
        || is_text(&e, "ps1")
        || is_text(&e, "py")
        || is_text(&e, "rb")
        || is_text(&e, "pl") {
        "Scripts"
    } else if is_text(&e, "txt")
        || is_text(&e, "md")
        || is_text(&e, "rst")
        || is_text(&e, "log")
        || is_text(&e, "cfg")
        || is_text(&e, "conf")
        || is_text(&e, "ini")
        || is_text(&e, "toml")
        || is_text(&e, "yaml")
        || is_text(&e, "yml")
        || is_text(&e, "json")
        || is_text(&e, "xml") {
        "Text / Config"
    } else if is_text(&e, "jpg")
        || is_text(&e, "jpeg")
        || is_text(&e, "png")
        || is_text(&e, "gif")
        || is_text(&e, "svg")
        || is_text(&e, "bmp")
        || is_text(&e, "ico")
        || is_text(&e, "webp") {
        "Images"
    } else if is_text(&e, "mp4")
        || is_text(&e, "mkv")
        || is_text(&e, "avi")
        || is_text(&e, "mov")
        || is_text(&e, "wmv")
        || is_text(&e, "flv")
        || is_text(&e, "webm") {
        "Video"
    } else if is_text(&e, "mp3")
        || is_text(&e, "flac")
        || is_text(&e, "ogg")
        || is_text(&e, "wav")
        || is_text(&e, "aac")
        || is_text(&e, "m4a") {
        "Audio"
    } else if is_text(&e, "zip")
        || is_text(&e, "tar")
        || is_text(&e, "gz")
        || is_text(&e, "bz2")
        || is_text(&e, "xz")
        || is_text(&e, "7z")
        || is_text(&e, "rar")
        || is_text(&e, "zst") {
        "Archives"
    } else if is_text(&e, "efi")
        || is_text(&e, "sys")
        || is_text(&e, "ko")
        || is_text(&e, "so")
        || is_text(&e, "dll")
        || is_text(&e, "o")
        || is_text(&e, "a")
        || is_text(&e, "lib") {
        "System / Libs"
    } else {
        "Other"
    }
}

/// The category a file falls in (see `category_of`).
pub fn classify_ext(name: &str) -> (r: &'static str)
    ensures
        r@ == category_of(name@),
        is_ascii_text(last_segment(name@)) ==> r@ == category_of_ext(
            last_segment(name@).map_values(|c: char| crate::text::ascii_lower(c)),
        ),
{
    let seg = last_segment_exec(&chars_of(name));
    let lower = to_lowercase(string_of(&seg).as_str());
    category_of_ext_exec(&chars_of_string(&lower))
}

/// The icon shown for a file (see `category_icon`).
pub fn file_icon(name: &str) -> (r: &'static str)
    ensures
        r@ == category_icon(category_of(name@)),
{
    let c = chars_of(classify_ext(name));
    if is_text(&c, "Disk Images") {
        "💿"
    } else if is_text(&c, "Executables") {
        "⚙"
    } else if is_text(&c, "Scripts") {
        "📜"
    } else if is_text(&c, "Text / Config") {
        "📄"
    } else if is_text(&c, "Images") {
        "🖼"
    } else if is_text(&c, "Video") {
        "🎬"
    } else if is_text(&c, "Audio") {
        "🎵"
    } else if is_text(&c, "Archives") {
        "📦"
    } else if is_text(&c, "System / Libs") {
        "🔧"
    } else {
        "📄"
    }
}

/// How many files (directories are not counted) fall in category `label`.
pub open spec fn count_in(entries: Seq<UsbEntryModel>, label: Seq<char>) -> nat
    decreases entries.len(),
{
    if entries.len() == 0 {
        0
    } else {
        count_in(entries.drop_last(), label) + if !entries.last().is_dir && category_of(entries.last().name)
            == label {
            1nat
        } else {
            0nat
        }
    }
}

/// The categories among `labels` that hold files, in order, with their counts.
pub open spec fn counts_for(labels: Seq<Seq<char>>, entries: Seq<UsbEntryModel>) -> Seq<(Seq<char>, nat)>
    decreases labels.len(),
{
    if labels.len() == 0 {
        Seq::empty()
    } else {
        let rest = counts_for(labels.drop_first(), entries);
        let n = count_in(entries, labels[0]);
        if n > 0 {
            seq![(labels[0], n)] + rest
        } else {
            rest
        }
    }
}

/// The file counts per category, in the order of the category labels.
pub open spec fn category_counts(entries: Seq<UsbEntryModel>) -> Seq<(Seq<char>, nat)> {
    counts_for(category_labels(), entries)
}

fn label_at(i: usize) -> (r: &'static str)
    requires
        i < 10,
    ensures
        r@ == category_labels()[i as int],
{
    match i {
        0 => "Archives",
        1 => "Audio",
        2 => "Disk Images",
        3 => "Executables",
        4 => "Images",
        5 => "Other",
        6 => "Scripts",
        7 => "System / Libs",
        8 => "Text / Config",
        _ => "Video",
    }
}

/// How many files of each category the entries hold, in label order,
/// leaving out empty categories (see `category_counts`).
pub fn file_type_counts(entries: &Vec<UsbEntry>) -> (r: Vec<(&'static str, usize)>)
    ensures
        r@.len() == category_counts(usb_view(entries@)).len(),
        forall|i: int|
            0 <= i < r@.len() ==> (#[trigger] r@[i]).0@ == category_counts(usb_view(entries@))[i].0
                && r@[i].1 as nat == category_counts(usb_view(entries@))[i].1,
{
    let ghost ev = usb_view(entries@);
    let ghost labels = category_labels();
    let mut per: Vec<(&'static str, usize)> = Vec::new();
    let mut li: usize = 10;
    assert(labels.skip(10) =~= Seq::<Seq<char>>::empty());
    while li > 0
        invariant
            li <= 10,
            labels == category_labels(),
            ev == usb_view(entries@),
            per@.len() == counts_for(labels.skip(li as int), ev).len(),
            forall|i: int|
                0 <= i < per@.len() ==> (#[trigger] per@[i]).0@ == counts_for(labels.skip(li as int), ev)[i].0
                    && per@[i].1 as nat == counts_for(labels.skip(li as int), ev)[i].1,
        decreases li,
    {
        let label = label_at(li - 1);
        let mut n: usize = 0;
        let mut k: usize = 0;
        while k < entries.len()
            invariant
                k <= entries.len(),
                ev == usb_view(entries@),
                n as nat == count_in(ev.take(k as int), label@),
                n <= k,
            decreases entries.len() - k,
        {
            assert(ev.take(k as int + 1).drop_last() =~= ev.take(k as int));
            assert(ev.take(k as int + 1).last() == entries@[k as int]@);
            let c = classify_ext(entries[k].name.as_str());
            if !entries[k].is_dir && eq_chars(&chars_of(c), &chars_of(label)) {
                n += 1;
            }
            k += 1;
        }
        assert(ev.take(entries.len() as int) =~= ev);
        assert(labels.skip(li as int - 1).drop_first() =~= labels.skip(li as int));
        assert(labels.skip(li as int - 1)[0] == labels[li as int - 1]);
        let ghost old_per = per@;
        let ghost rest = counts_for(labels.skip(li as int), ev);
        if n > 0 {
            per.insert(0, (label, n));
            assert forall|i: int| 0 <= i < per@.len() implies (#[trigger] per@[i]).0@ == (seq![(label@, n as nat)] + rest)[i].0
                && per@[i].1 as nat == (seq![(label@, n as nat)] + rest)[i].1 by {
                if i > 0 {
                    assert(per@[i] == old_per[i - 1]);
                }
            }
        }
        li -= 1;
    }
    assert(labels.skip(0) =~= labels);
    per
}

/// A byte count in the compact form of the contents list: bytes below 1 KiB
/// (`512B`), else one decimal of K, M or G (powers of 1024), computed as the
/// double division does.
pub open spec fn compact_size_text(bytes: u64) -> Seq<char> {
    let (scale, unit) = if bytes >= 1_073_741_824 {
        (1_073_741_824nat, 'G')
    } else if bytes >= 1_048_576 {
        (1_048_576nat, 'M')
    } else {
        (1024nat, 'K')
    };
    if bytes >= 1024 {
        let t = round_div(as_double(bytes as nat) * 10, scale);
        decimal(t / 10) + seq!['.', digit_char(t % 10), unit]
    } else {
        decimal(bytes as nat) + seq!['B']
    }
}

/// A byte count in the compact form of the contents list (see
/// `compact_size_text`).
pub fn fmt_size(bytes: u64) -> (r: String)
    ensures
        r@ == compact_size_text(bytes),
{
    if bytes < 1024 {
        let mut out = decimal_exec(bytes as u128);
        out.push('B');
        return string_of(&out);
    }
    let (scale, unit): (u128, char) = if bytes >= 1_073_741_824 {
        (1_073_741_824, 'G')
    } else if bytes >= 1_048_576 {
        (1_048_576, 'M')
    } else {
        (1024, 'K')
    };
    let x = double_value(bytes);
    let t = round_div_exec(x * 10, scale);
    let mut out = decimal_exec(t / 10);
    out.push('.');
    out.push(char_from_ascii((t % 10) as u32 + 48));
    out.push(unit);
    string_of(&out)
}

/// The characters of every extension the categories list.
proof fn lemma_extension_literals()
    ensures
        "iso"@.len() == 3 && "iso"@[0] == 'i' && "iso"@[1] == 's' && "iso"@[2] == 'o',
        "img"@.len() == 3 && "img"@[0] == 'i' && "img"@[1] == 'm' && "img"@[2] == 'g',
        "bin"@.len() == 3 && "bin"@[0] == 'b' && "bin"@[1] == 'i' && "bin"@[2] == 'n',
        "dmg"@.len() == 3 && "dmg"@[0] == 'd' && "dmg"@[1] == 'm' && "dmg"@[2] == 'g',
        "vhd"@.len() == 3 && "vhd"@[0] == 'v' && "vhd"@[1] == 'h' && "vhd"@[2] == 'd',
        "vmdk"@.len() == 4 && "vmdk"@[0] == 'v' && "vmdk"@[1] == 'm' && "vmdk"@[2] == 'd' && "vmdk"@[3] == 'k',
        "exe"@.len() == 3 && "exe"@[0] == 'e' && "exe"@[1] == 'x' && "exe"@[2] == 'e',
        "msi"@.len() == 3 && "msi"@[0] == 'm' && "msi"@[1] == 's' && "msi"@[2] == 'i',
        "deb"@.len() == 3 && "deb"@[0] == 'd' && "deb"@[1] == 'e' && "deb"@[2] == 'b',
        "rpm"@.len() == 3 && "rpm"@[0] == 'r' && "rpm"@[1] == 'p' && "rpm"@[2] == 'm',
        "apk"@.len() == 3 && "apk"@[0] == 'a' && "apk"@[1] == 'p' && "apk"@[2] == 'k',
        "appimage"@.len() == 8 && "appimage"@[0] == 'a' && "appimage"@[1] == 'p' && "appimage"@[2] == 'p' && "appimage"@[3] == 'i' && "appimage"@[4] == 'm' && "appimage"@[5] == 'a' && "appimage"@[6] == 'g' && "appimage"@[7] == 'e',
        "sh"@.len() == 2 && "sh"@[0] == 's' && "sh"@[1] == 'h',
        "bat"@.len() == 3 && "bat"@[0] == 'b' && "bat"@[1] == 'a' && "bat"@[2] == 't',
        "cmd"@.len() == 3 && "cmd"@[0] == 'c' && "cmd"@[1] == 'm' && "cmd"@[2] == 'd',
        "ps1"@.len() == 3 && "ps1"@[0] == 'p' && "ps1"@[1] == 's' && "ps1"@[2] == '1',
        "py"@.len() == 2 && "py"@[0] == 'p' && "py"@[1] == 'y',
        "rb"@.len() == 2 && "rb"@[0] == 'r' && "rb"@[1] == 'b',
        "pl"@.len() == 2 && "pl"@[0] == 'p' && "pl"@[1] == 'l',
        "txt"@.len() == 3 && "txt"@[0] == 't' && "txt"@[1] == 'x' && "txt"@[2] == 't',
        "md"@.len() == 2 && "md"@[0] == 'm' && "md"@[1] == 'd',
        "rst"@.len() == 3 && "rst"@[0] == 'r' && "rst"@[1] == 's' && "rst"@[2] == 't',
        "log"@.len() == 3 && "log"@[0] == 'l' && "log"@[1] == 'o' && "log"@[2] == 'g',
        "cfg"@.len() == 3 && "cfg"@[0] == 'c' && "cfg"@[1] == 'f' && "cfg"@[2] == 'g',
        "conf"@.len() == 4 && "conf"@[0] == 'c' && "conf"@[1] == 'o' && "conf"@[2] == 'n' && "conf"@[3] == 'f',
        "ini"@.len() == 3 && "ini"@[0] == 'i' && "ini"@[1] == 'n' && "ini"@[2] == 'i',
        "toml"@.len() == 4 && "toml"@[0] == 't' && "toml"@[1] == 'o' && "toml"@[2] == 'm' && "toml"@[3] == 'l',
        "yaml"@.len() == 4 && "yaml"@[0] == 'y' && "yaml"@[1] == 'a' && "yaml"@[2] == 'm' && "yaml"@[3] == 'l',
        "yml"@.len() == 3 && "yml"@[0] == 'y' && "yml"@[1] == 'm' && "yml"@[2] == 'l',
        "json"@.len() == 4 && "json"@[0] == 'j' && "json"@[1] == 's' && "json"@[2] == 'o' && "json"@[3] == 'n',
        "xml"@.len() == 3 && "xml"@[0] == 'x' && "xml"@[1] == 'm' && "xml"@[2] == 'l',
        "jpg"@.len() == 3 && "jpg"@[0] == 'j' && "jpg"@[1] == 'p' && "jpg"@[2] == 'g',
        "jpeg"@.len() == 4 && "jpeg"@[0] == 'j' && "jpeg"@[1] == 'p' && "jpeg"@[2] == 'e' && "jpeg"@[3] == 'g',
        "png"@.len() == 3 && "png"@[0] == 'p' && "png"@[1] == 'n' && "png"@[2] == 'g',
        "gif"@.len() == 3 && "gif"@[0] == 'g' && "gif"@[1] == 'i' && "gif"@[2] == 'f',
        "svg"@.len() == 3 && "svg"@[0] == 's' && "svg"@[1] == 'v' && "svg"@[2] == 'g',
        "bmp"@.len() == 3 && "bmp"@[0] == 'b' && "bmp"@[1] == 'm' && "bmp"@[2] == 'p',
        "ico"@.len() == 3 && "ico"@[0] == 'i' && "ico"@[1] == 'c' && "ico"@[2] == 'o',
        "webp"@.len() == 4 && "webp"@[0] == 'w' && "webp"@[1] == 'e' && "webp"@[2] == 'b' && "webp"@[3] == 'p',
        "mp4"@.len() == 3 && "mp4"@[0] == 'm' && "mp4"@[1] == 'p' && "mp4"@[2] == '4',
        "mkv"@.len() == 3 && "mkv"@[0] == 'm' && "mkv"@[1] == 'k' && "mkv"@[2] == 'v',
        "avi"@.len() == 3 && "avi"@[0] == 'a' && "avi"@[1] == 'v' && "avi"@[2] == 'i',
        "mov"@.len() == 3 && "mov"@[0] == 'm' && "mov"@[1] == 'o' && "mov"@[2] == 'v',
        "wmv"@.len() == 3 && "wmv"@[0] == 'w' && "wmv"@[1] == 'm' && "wmv"@[2] == 'v',
        "flv"@.len() == 3 && "flv"@[0] == 'f' && "flv"@[1] == 'l' && "flv"@[2] == 'v',
        "webm"@.len() == 4 && "webm"@[0] == 'w' && "webm"@[1] == 'e' && "webm"@[2] == 'b' && "webm"@[3] == 'm',
        "mp3"@.len() == 3 && "mp3"@[0] == 'm' && "mp3"@[1] == 'p' && "mp3"@[2] == '3',
        "flac"@.len() == 4 && "flac"@[0] == 'f' && "flac"@[1] == 'l' && "flac"@[2] == 'a' && "flac"@[3] == 'c',
        "ogg"@.len() == 3 && "ogg"@[0] == 'o' && "ogg"@[1] == 'g' && "ogg"@[2] == 'g',
        "wav"@.len() == 3 && "wav"@[0] == 'w' && "wav"@[1] == 'a' && "wav"@[2] == 'v',
        "aac"@.len() == 3 && "aac"@[0] == 'a' && "aac"@[1] == 'a' && "aac"@[2] == 'c',
        "m4a"@.len() == 3 && "m4a"@[0] == 'm' && "m4a"@[1] == '4' && "m4a"@[2] == 'a',
        "zip"@.len() == 3 && "zip"@[0] == 'z' && "zip"@[1] == 'i' && "zip"@[2] == 'p',
        "tar"@.len() == 3 && "tar"@[0] == 't' && "tar"@[1] == 'a' && "tar"@[2] == 'r',
        "gz"@.len() == 2 && "gz"@[0] == 'g' && "gz"@[1] == 'z',
        "bz2"@.len() == 3 && "bz2"@[0] == 'b' && "bz2"@[1] == 'z' && "bz2"@[2] == '2',
        "xz"@.len() == 2 && "xz"@[0] == 'x' && "xz"@[1] == 'z',
        "7z"@.len() == 2 && "7z"@[0] == '7' && "7z"@[1] == 'z',
        "rar"@.len() == 3 && "rar"@[0] == 'r' && "rar"@[1] == 'a' && "rar"@[2] == 'r',
        "zst"@.len() == 3 && "zst"@[0] == 'z' && "zst"@[1] == 's' && "zst"@[2] == 't',
        "efi"@.len() == 3 && "efi"@[0] == 'e' && "efi"@[1] == 'f' && "efi"@[2] == 'i',
        "sys"@.len() == 3 && "sys"@[0] == 's' && "sys"@[1] == 'y' && "sys"@[2] == 's',
        "ko"@.len() == 2 && "ko"@[0] == 'k' && "ko"@[1] == 'o',
        "so"@.len() == 2 && "so"@[0] == 's' && "so"@[1] == 'o',
        "dll"@.len() == 3 && "dll"@[0] == 'd' && "dll"@[1] == 'l' && "dll"@[2] == 'l',
        "o"@.len() == 1 && "o"@[0] == 'o',
        "a"@.len() == 1 && "a"@[0] == 'a',
        "lib"@.len() == 3 && "lib"@[0] == 'l' && "lib"@[1] == 'i' && "lib"@[2] == 'b',
{
    reveal_strlit("iso");
    reveal_strlit("img");
    reveal_strlit("bin");
    reveal_strlit("dmg");
    reveal_strlit("vhd");
    reveal_strlit("vmdk");
    reveal_strlit("exe");
    reveal_strlit("msi");
    reveal_strlit("deb");
    reveal_strlit("rpm");
    reveal_strlit("apk");
    reveal_strlit("appimage");
    reveal_strlit("sh");
    reveal_strlit("bat");
    reveal_strlit("cmd");
    reveal_strlit("ps1");
    reveal_strlit("py");
    reveal_strlit("rb");
    reveal_strlit("pl");
    reveal_strlit("txt");
    reveal_strlit("md");
    reveal_strlit("rst");
    reveal_strlit("log");
    reveal_strlit("cfg");
    reveal_strlit("conf");
    reveal_strlit("ini");
    reveal_strlit("toml");
    reveal_strlit("yaml");
    reveal_strlit("yml");
    reveal_strlit("json");
    reveal_strlit("xml");
    reveal_strlit("jpg");
    reveal_strlit("jpeg");
    reveal_strlit("png");
    reveal_strlit("gif");
    reveal_strlit("svg");
    reveal_strlit("bmp");
    reveal_strlit("ico");
    reveal_strlit("webp");
    reveal_strlit("mp4");
    reveal_strlit("mkv");
    reveal_strlit("avi");
    reveal_strlit("mov");
    reveal_strlit("wmv");
    reveal_strlit("flv");
    reveal_strlit("webm");
    reveal_strlit("mp3");
    reveal_strlit("flac");
    reveal_strlit("ogg");
    reveal_strlit("wav");
    reveal_strlit("aac");
    reveal_strlit("m4a");
    reveal_strlit("zip");
    reveal_strlit("tar");
    reveal_strlit("gz");
    reveal_strlit("bz2");
    reveal_strlit("xz");
    reveal_strlit("7z");
    reveal_strlit("rar");
    reveal_strlit("zst");
    reveal_strlit("efi");
    reveal_strlit("sys");
    reveal_strlit("ko");
    reveal_strlit("so");
    reveal_strlit("dll");
    reveal_strlit("o");
    reveal_strlit("a");
    reveal_strlit("lib");
}

/// A file whose lower-cased last dot-segment is `iso`, `img`, `bin`, `dmg`, `vhd` or `vmdk` counts as
/// "Disk Images", whatever the case of its name.
pub proof fn law_disk_images_extensions(name: Seq<char>)
    ensures
        ({
            let e = lowercase_of(last_segment(name));
            e == "iso"@ || e == "img"@ || e == "bin"@ || e == "dmg"@ || e == "vhd"@ || e == "vmdk"@
        }) ==> category_of(name) == "Disk Images"@,
{
    lemma_extension_literals();
}

/// A file whose lower-cased last dot-segment is `exe`, `msi`, `deb`, `rpm`, `apk` or `appimage` counts as
/// "Executables", whatever the case of its name.
pub proof fn law_executables_extensions(name: Seq<char>)
    ensures
        ({
            let e = lowercase_of(last_segment(name));
            e == "exe"@ || e == "msi"@ || e == "deb"@ || e == "rpm"@ || e == "apk"@ || e == "appimage"@
        }) ==> category_of(name) == "Executables"@,
{
    lemma_extension_literals();
}

/// A file whose lower-cased last dot-segment is `sh`, `bat`, `cmd`, `ps1`, `py`, `rb` or `pl` counts as
/// "Scripts", whatever the case of its name.
pub proof fn law_scripts_extensions(name: Seq<char>)
    ensures
        ({
            let e = lowercase_of(last_segment(name));
            e == "sh"@ || e == "bat"@ || e == "cmd"@ || e == "ps1"@ || e == "py"@ || e == "rb"@ || e == "pl"@
        }) ==> category_of(name) == "Scripts"@,
{
    lemma_extension_literals();
}

/// A file whose lower-cased last dot-segment is `txt`, `md`, `rst`, `log`, `cfg`, `conf`, `ini`, `toml`, `yaml`, `yml`, `json` or `xml` counts as
/// "Text / Config", whatever the case of its name.
pub proof fn law_text_config_extensions(name: Seq<char>)
    ensures
        ({
            let e = lowercase_of(last_segment(name));
            e == "txt"@ || e == "md"@ || e == "rst"@ || e == "log"@ || e == "cfg"@ || e == "conf"@ || e == "ini"@ || e == "toml"@ || e == "yaml"@ || e == "yml"@ || e == "json"@ || e == "xml"@
        }) ==> category_of(name) == "Text / Config"@,
{
    lemma_extension_literals();
}

/// A file whose lower-cased last dot-segment is `jpg`, `jpeg`, `png`, `gif`, `svg`, `bmp`, `ico` or `webp` counts as
/// "Images", whatever the case of its name.
pub proof fn law_images_extensions(name: Seq<char>)
    ensures
        ({
            let e = lowercase_of(last_segment(name));
            e == "jpg"@ || e == "jpeg"@ || e == "png"@ || e == "gif"@ || e == "svg"@ || e == "bmp"@ || e == "ico"@ || e == "webp"@
        }) ==> category_of(name) == "Images"@,
{
    lemma_extension_literals();
}

/// A file whose lower-cased last dot-segment is `mp4`, `mkv`, `avi`, `mov`, `wmv`, `flv` or `webm` counts as
/// "Video", whatever the case of its name.
pub proof fn law_video_extensions(name: Seq<char>)
    ensures
        ({
            let e = lowercase_of(last_segment(name));
            e == "mp4"@ || e == "mkv"@ || e == "avi"@ || e == "mov"@ || e == "wmv"@ || e == "flv"@ || e == "webm"@
        }) ==> category_of(name) == "Video"@,
{
    lemma_extension_literals();
}

/// A file whose lower-cased last dot-segment is `mp3`, `flac`, `ogg`, `wav`, `aac` or `m4a` counts as
/// "Audio", whatever the case of its name.
pub proof fn law_audio_extensions(name: Seq<char>)
    ensures
        ({
            let e = lowercase_of(last_segment(name));
            e == "mp3"@ || e == "flac"@ || e == "ogg"@ || e == "wav"@ || e == "aac"@ || e == "m4a"@
        }) ==> category_of(name) == "Audio"@,
{
    lemma_extension_literals();
}

/// A file whose lower-cased last dot-segment is `zip`, `tar`, `gz`, `bz2`, `xz`, `7z`, `rar` or `zst` counts as
/// "Archives", whatever the case of its name.
pub proof fn law_archives_extensions(name: Seq<char>)
    ensures
        ({
            let e = lowercase_of(last_segment(name));
            e == "zip"@ || e == "tar"@ || e == "gz"@ || e == "bz2"@ || e == "xz"@ || e == "7z"@ || e == "rar"@ || e == "zst"@
        }) ==> category_of(name) == "Archives"@,
{
    lemma_extension_literals();
}

/// A file whose lower-cased last dot-segment is `efi`, `sys`, `ko`, `so`, `dll`, `o`, `a` or `lib` counts as
/// "System / Libs", whatever the case of its name.
pub proof fn law_system_libs_extensions(name: Seq<char>)
    ensures
        ({
            let e = lowercase_of(last_segment(name));
            e == "efi"@ || e == "sys"@ || e == "ko"@ || e == "so"@ || e == "dll"@ || e == "o"@ || e == "a"@ || e == "lib"@
        }) ==> category_of(name) == "System / Libs"@,
{
    lemma_extension_literals();
}

} // verus!
