//! Reading the XML property lists that `diskutil -plist` prints.
//!
//! The parser is a targeted text scan for the flat key/value layout that
//! `diskutil` always produces, not a general XML reader.
use vstd::prelude::*;
use crate::drive_detection::{UsbInfo, UsbModel, build_display_name, display_name, first_where, lemma_first_where_at, usb_label};
use crate::drive_detection::opt_view as info_text;
use crate::tui::{DriveInfo, DriveModel};
use crate::text::{
    chars_of, chars_of_string, concat, find, find_char, find_char_exec, find_exec,
    lemma_find_char_facts, lemma_find_from_facts, occurs_at, parse_u64, parse_u64_exec,
    slice_chars, starts_with, starts_with_exec, string_of, trim, trim_exec, trim_start,
    trim_start_exec, views,
};

verus! {

/// `Some(p + |pat|)`: the index just past the first occurrence of `pat`.
pub open spec fn past(s: Seq<char>, pat: Seq<char>) -> Option<int> {
    match find(s, pat) {
        Some(p) => Some(p + pat.len()),
        None => None,
    }
}

pub proof fn lemma_past(s: Seq<char>, pat: Seq<char>)
    ensures
        past(s, pat) matches Some(q) ==> pat.len() <= q <= s.len(),
{
    lemma_find_from_facts(s, pat, 0);
}

spec fn find_from_is(s: Seq<char>, pat: Seq<char>, k: int) -> bool {
    crate::text::find_from(s, pat, 0) == Some(k) && occurs_at(s, pat, k)
}

/// The index just past the first occurrence of `pat` in `s`.
fn past_exec(s: &Vec<char>, pat: &Vec<char>) -> (r: Option<usize>)
    ensures
        match r {
            Some(q) => past(s@, pat@) == Some(q as int) && q <= s.len(),
            None => past(s@, pat@) is None,
        },
{
    proof {
        lemma_past(s@, pat@);
    }
    match find_exec(s, pat) {
        Some(p) => {
            proof {
                lemma_find_from_facts(s@, pat@, 0);
                assert(find_from_is(s@, pat@, p as int));
                assert(s@.len() == s.len());
                assert(pat@.len() == pat.len());
            }
            Some(p + pat.len())
        },
        None => None,
    }
}

// ---------------------------------------------------------------------------
// String arrays
// ---------------------------------------------------------------------------

/// The trimmed contents of the `<string>…</string>` elements of `rem`, in
/// order, up to the first one that is not closed.
pub open spec fn string_values(rem: Seq<char>) -> Seq<Seq<char>>
    decreases rem.len(),
{
    match past(rem, "<string>"@) {
        None => seq![],
        Some(a) => {
            let r2 = rem.skip(a);
            match find(r2, "</string>"@) {
                None => seq![],
                Some(e) => {
                    let rest = r2.skip(e + "</string>"@.len());
                    if rest.len() >= rem.len() {
                        seq![]
                    } else {
                        seq![trim(r2.take(e))] + string_values(rest)
                    }
                },
            }
        },
    }
}

/// The string array stored under `<key>{key}</key>`: the `<string>`
/// values between the next `<array>` and the `</array>` after it.
pub open spec fn plist_string_array(plist: Seq<char>, key: Seq<char>) -> Seq<Seq<char>> {
    match past(plist, "<key>"@ + key + "</key>"@) {
        None => seq![],
        Some(k) => {
            let after_key = plist.skip(k);
            match past(after_key, "<array>"@) {
                None => seq![],
                Some(a) => {
                    let after_array = after_key.skip(a);
                    match find(after_array, "</array>"@) {
                        None => seq![],
                        Some(e) => string_values(after_array.take(e)),
                    }
                },
            }
        },
    }
}

fn string_values_exec(rem0: &Vec<char>) -> (r: Vec<String>)
    ensures
        r@.map_values(|s: String| s@) == string_values(rem0@),
{
    let open_tag = chars_of("<string>");
    let close_tag = chars_of("</string>");
    proof {
        reveal_strlit("</string>");
    }
    let mut out: Vec<String> = Vec::new();
    let mut rem = rem0.clone();
    assert(rem@ =~= rem0@);
    loop
        invariant
            open_tag@ == "<string>"@,
            close_tag@ == "</string>"@,
            close_tag@.len() == 9,
            string_values(rem0@) == out@.map_values(|s: String| s@) + string_values(rem@),
        decreases rem.len(),
    {
        let ghost out0 = out@.map_values(|s: String| s@);
        match past_exec(&rem, &open_tag) {
            None => {
                assert(string_values(rem@) =~= seq![]);
                assert(out0 + seq![] =~= out0);
                return out;
            },
            Some(a) => {
                let r2 = slice_chars(&rem, a, rem.len());
                assert(r2@ =~= rem@.skip(a as int));
                match find_exec(&r2, &close_tag) {
                    None => {
                        assert(string_values(rem@) =~= seq![]);
                        assert(out0 + seq![] =~= out0);
                        return out;
                    },
                    Some(e) => {
                        proof {
                            lemma_find_from_facts(r2@, close_tag@, 0);
                            lemma_past(rem@, open_tag@);
                        }
                        let v = trim_exec(&slice_chars(&r2, 0, e));
                        assert(r2@.take(e as int) =~= r2@.subrange(0, e as int));
                        let rest = slice_chars(&r2, e + close_tag.len(), r2.len());
                        assert(rest@ =~= r2@.skip(e + 9));
                        let s = string_of(&v);
                        out.push(s);
                        assert(out@.map_values(|s: String| s@) =~= out0.push(v@));
                        assert(out0.push(v@) + string_values(rest@) =~= out0 + (seq![v@]
                            + string_values(rest@)));
                        rem = rest;
                    },
                }
            },
        }
    }
}

/// Extract a string array value for `key` from an XML plist.
pub fn parse_plist_string_array(plist: &str, key: &str) -> (r: Vec<String>)
    ensures
        r@.map_values(|s: String| s@) == plist_string_array(plist@, key@),
{
    let p = chars_of(plist);
    let tag = concat(&concat(&chars_of("<key>"), &chars_of(key)), &chars_of("</key>"));
    match past_exec(&p, &tag) {
        None => {
            let r: Vec<String> = Vec::new();
            assert(r@.map_values(|s: String| s@) =~= seq![]);
            r
        },
        Some(k) => {
            let after_key = slice_chars(&p, k, p.len());
            assert(after_key@ =~= p@.skip(k as int));
            match past_exec(&after_key, &chars_of("<array>")) {
                None => {
                    let r: Vec<String> = Vec::new();
                    assert(r@.map_values(|s: String| s@) =~= seq![]);
                    r
                },
                Some(a) => {
                    let after_array = slice_chars(&after_key, a, after_key.len());
                    assert(after_array@ =~= after_key@.skip(a as int));
                    match find_exec(&after_array, &chars_of("</array>")) {
                        None => {
                            let r: Vec<String> = Vec::new();
                            assert(r@.map_values(|s: String| s@) =~= seq![]);
                            r
                        },
                        Some(e) => {
                            proof {
                                lemma_find_from_facts(after_array@, "</array>"@, 0);
                            }
                            let content = slice_chars(&after_array, 0, e);
                            assert(content@ =~= after_array@.take(e as int));
                            string_values_exec(&content)
                        },
                    }
                },
            }
        },
    }
}

// ---------------------------------------------------------------------------
// Scalar values
// ---------------------------------------------------------------------------

/// The text before the first `'.'`.
pub open spec fn before_dot(t: Seq<char>) -> Seq<char> {
    match find_char(t, '.') {
        Some(k) => t.take(k),
        None => t,
    }
}

/// The integer part of the first `{open}…{close}` element of `s`.
pub open spec fn tagged_integer(s: Seq<char>, open: Seq<char>, close: Seq<char>) -> Option<u64> {
    match past(s, open) {
        None => None,
        Some(a) => {
            let after = s.skip(a);
            match find(after, close) {
                None => None,
                Some(e) => parse_u64(before_dot(trim(after.take(e)))),
            }
        },
    }
}

/// The value of the first `<integer>` or `<real>` element, whichever comes
/// first (decimals dropped), read as a `u64`.
pub open spec fn plist_integer(s: Seq<char>) -> Option<u64> {
    let int_first = match (find(s, "<integer>"@), find(s, "<real>"@)) {
        (Some(i), Some(r)) => i < r,
        (Some(_), None) => true,
        _ => false,
    };
    if int_first {
        tagged_integer(s, "<integer>"@, "</integer>"@)
    } else {
        tagged_integer(s, "<real>"@, "</real>"@)
    }
}

/// The trimmed text of the first `<string>…</string>` element.
pub open spec fn plist_string(s: Seq<char>) -> Option<Seq<char>> {
    match past(s, "<string>"@) {
        None => None,
        Some(a) => match find(s.skip(a), "</string>"@) {
            None => None,
            Some(e) => Some(trim(s.skip(a).take(e))),
        },
    }
}

fn tagged_integer_exec(s: &Vec<char>, open: &str, close: &str) -> (r: Option<u64>)
    ensures
        r == tagged_integer(s@, open@, close@),
{
    match past_exec(s, &chars_of(open)) {
        None => None,
        Some(a) => {
            let after = slice_chars(s, a, s.len());
            assert(after@ =~= s@.skip(a as int));
            match find_exec(&after, &chars_of(close)) {
                None => None,
                Some(e) => {
                    proof {
                        lemma_find_from_facts(after@, close@, 0);
                    }
                    let text = trim_exec(&slice_chars(&after, 0, e));
                    assert(after@.subrange(0, e as int) =~= after@.take(e as int));
                    let int_part = match find_char_exec(&text, '.') {
                        Some(k) => {
                            let v = slice_chars(&text, 0, k);
                            assert(v@ =~= text@.take(k as int));
                            v
                        },
                        None => text,
                    };
                    parse_u64_exec(&int_part)
                },
            }
        },
    }
}

/// Extract the text content of the first `<integer>…</integer>` or
/// `<real>…</real>` element and parse it as `u64`.
pub fn extract_integer(s: &str) -> (r: Option<u64>)
    ensures
        r == plist_integer(s@),
{
    let v = chars_of(s);
    let int_first = match (find_exec(&v, &chars_of("<integer>")), find_exec(&v, &chars_of("<real>"))) {
        (Some(i), Some(r)) => i < r,
        (Some(_), None) => true,
        _ => false,
    };
    if int_first {
        tagged_integer_exec(&v, "<integer>", "</integer>")
    } else {
        tagged_integer_exec(&v, "<real>", "</real>")
    }
}

fn plist_string_exec(s: &Vec<char>) -> (r: Option<Vec<char>>)
    ensures
        match r {
            Some(t) => plist_string(s@) == Some(t@),
            None => plist_string(s@) is None,
        },
{
    match past_exec(s, &chars_of("<string>")) {
        None => None,
        Some(a) => {
            let after = slice_chars(s, a, s.len());
            assert(after@ =~= s@.skip(a as int));
            match find_exec(&after, &chars_of("</string>")) {
                None => None,
                Some(e) => {
                    proof {
                        lemma_find_from_facts(after@, "</string>"@, 0);
                    }
                    let t = trim_exec(&slice_chars(&after, 0, e));
                    assert(after@.subrange(0, e as int) =~= after@.take(e as int));
                    Some(t)
                },
            }
        },
    }
}

/// Extract the text content of the first `<string>…</string>` element.
pub fn extract_string(s: &str) -> (r: Option<String>)
    ensures
        match r {
            Some(t) => plist_string(s@) == Some(t@),
            None => plist_string(s@) is None,
        },
{
    match plist_string_exec(&chars_of(s)) {
        Some(t) => Some(string_of(&t)),
        None => None,
    }
}

// ---------------------------------------------------------------------------
// Disk information dictionaries
// ---------------------------------------------------------------------------

/// A parsed entry from `diskutil info -plist /dev/diskN`.
#[derive(Debug, Clone, Default)]
pub struct DiskInfo {
    /// True if this is a whole disk (not a partition slice).
    pub whole_disk: bool,
    /// True if the disk is ejectable / removable.
    pub removable: bool,
    /// Size in bytes.
    pub size_bytes: u64,
    /// True when mounted read-only.
    pub read_only: bool,
    /// Mount point of the disk or its first partition.
    pub mount_point: Option<String>,
    /// USB vendor ID.
    pub usb_vendor_id: Option<u16>,
    /// USB product ID.
    pub usb_product_id: Option<u16>,
    /// USB serial number.
    pub usb_serial: Option<String>,
    /// IOKit registry entry ID.
    pub io_registry_entry_id: Option<u64>,
}

/// The mathematical value of a [`DiskInfo`].
pub struct DiskModel {
    pub whole_disk: bool,
    pub removable: bool,
    pub size_bytes: u64,
    pub read_only: bool,
    pub mount_point: Option<Seq<char>>,
    pub usb_vendor_id: Option<u16>,
    pub usb_product_id: Option<u16>,
    pub usb_serial: Option<Seq<char>>,
    pub io_registry_entry_id: Option<u64>,
}

pub open spec fn opt_seq(o: Option<String>) -> Option<Seq<char>> {
    match o {
        Some(s) => Some(s@),
        None => None,
    }
}

impl View for DiskInfo {
    type V = DiskModel;

    open spec fn view(&self) -> DiskModel {
        DiskModel {
            whole_disk: self.whole_disk,
            removable: self.removable,
            size_bytes: self.size_bytes,
            read_only: self.read_only,
            mount_point: opt_seq(self.mount_point),
            usb_vendor_id: self.usb_vendor_id,
            usb_product_id: self.usb_product_id,
            usb_serial: opt_seq(self.usb_serial),
            io_registry_entry_id: self.io_registry_entry_id,
        }
    }
}

/// The empty record the scan starts from.
pub open spec fn empty_disk() -> DiskModel {
    DiskModel {
        whole_disk: false,
        removable: false,
        size_bytes: 0,
        read_only: false,
        mount_point: None,
        usb_vendor_id: None,
        usb_product_id: None,
        usb_serial: None,
        io_registry_entry_id: None,
    }
}

pub open spec fn is_removable_key(key: Seq<char>) -> bool {
    key == "Ejectable"@ || key == "Removable"@ || key == "RemovableMedia"@ || key
        == "RemovableMediaOrExternalDevice"@
}

/// The record once the value that follows `key` has been read.
pub open spec fn apply_key(info: DiskModel, key: Seq<char>, value: Seq<char>) -> DiskModel {
    if key == "WholeDisk"@ {
        DiskModel { whole_disk: starts_with(value, "<true/>"@), ..info }
    } else if is_removable_key(key) {
        if starts_with(value, "<true/>"@) {
            DiskModel { removable: true, ..info }
        } else {
            info
        }
    } else if key == "ReadOnly"@ {
        DiskModel { read_only: starts_with(value, "<true/>"@), ..info }
    } else if key == "TotalSize"@ || key == "DiskSize"@ {
        if info.size_bytes == 0 && plist_integer(value) is Some {
            DiskModel { size_bytes: plist_integer(value)->0, ..info }
        } else {
            info
        }
    } else if key == "MountPoint"@ {
        match plist_string(value) {
            Some(v) => if v.len() > 0 {
                DiskModel { mount_point: Some(v), ..info }
            } else {
                info
            },
            None => info,
        }
    } else if key == "USBVendorID"@ {
        match plist_integer(value) {
            Some(v) => DiskModel { usb_vendor_id: Some(v as u16), ..info },
            None => info,
        }
    } else if key == "USBProductID"@ {
        match plist_integer(value) {
            Some(v) => DiskModel { usb_product_id: Some(v as u16), ..info },
            None => info,
        }
    } else {
        info
    }
}

/// How far the scan moves past the value element that starts `c` (after
/// whitespace): past `<true/>` or `<false/>`, else past the matching
/// closing tag; to the end when there is none.
pub open spec fn advance_len(c: Seq<char>) -> int {
    let s = trim_start(c);
    if starts_with(s, "<true/>"@) {
        match past(c, "<true/>"@) {
            Some(q) => q,
            None => c.len() as int,
        }
    } else if starts_with(s, "<false/>"@) {
        match past(c, "<false/>"@) {
            Some(q) => q,
            None => c.len() as int,
        }
    } else {
        match (find_char(s, '>'), find_char(s, '<')) {
            (Some(te), Some(lt)) => if lt + 1 >= te {
                c.len() as int
            } else {
                match past(c, "</"@ + s.subrange(lt + 1, te) + ">"@) {
                    Some(q) => q,
                    None => c.len() as int,
                }
            },
            _ => c.len() as int,
        }
    }
}

/// `cursor` once the next value element has been skipped.
pub open spec fn advance_past(c: Seq<char>) -> Seq<char> {
    c.skip(advance_len(c))
}

pub proof fn lemma_advance_len(c: Seq<char>)
    ensures
        0 <= advance_len(c) <= c.len(),
{
    lemma_past(c, "<true/>"@);
    lemma_past(c, "<false/>"@);
    let s = trim_start(c);
    lemma_find_char_facts(s, '>');
    lemma_find_char_facts(s, '<');
    if let (Some(te), Some(lt)) = (find_char(s, '>'), find_char(s, '<')) {
        if lt + 1 < te {
            lemma_past(c, "</"@ + s.subrange(lt + 1, te) + ">"@);
        }
    }
}

/// The scan over the flat `<key>…</key><value/>` pairs of a plist
/// dictionary; `None` when a `<key>` is never closed.
pub open spec fn scan_keys(info: DiskModel, cursor: Seq<char>) -> Option<DiskModel>
    decreases cursor.len(),
{
    match past(cursor, "<key>"@) {
        None => Some(info),
        Some(a) => {
            let c1 = cursor.skip(a);
            match find(c1, "</key>"@) {
                None => None,
                Some(ke) => {
                    let key = trim(c1.take(ke));
                    let c2 = c1.skip(ke + "</key>"@.len());
                    let vstart = match find_char(c2, '<') {
                        Some(p) => p,
                        None => c2.len() as int,
                    };
                    let value = trim_start(c2.skip(vstart));
                    let c3 = advance_past(c2);
                    if c3.len() >= cursor.len() {
                        None
                    } else {
                        scan_keys(apply_key(info, key, value), c3)
                    }
                },
            }
        },
    }
}

/// The record read from `diskutil info -plist` output; `None` when a key is
/// never closed or no size was found.
pub open spec fn disk_info_of(plist: Seq<char>) -> Option<DiskModel> {
    match scan_keys(empty_disk(), plist) {
        Some(info) => if info.size_bytes == 0 {
            None
        } else {
            Some(info)
        },
        None => None,
    }
}

/// The number of characters of `cursor` to skip to get past the next value
/// element.
fn advance_len_exec(c: &Vec<char>) -> (r: usize)
    ensures
        r == advance_len(c@),
        r <= c.len(),
{
    proof {
        lemma_advance_len(c@);
    }
    let s = trim_start_exec(c);
    let t = chars_of("<true/>");
    let f = chars_of("<false/>");
    if starts_with_exec(&s, &t) {
        return match past_exec(c, &t) {
            Some(q) => q,
            None => c.len(),
        };
    }
    if starts_with_exec(&s, &f) {
        return match past_exec(c, &f) {
            Some(q) => q,
            None => c.len(),
        };
    }
    match (find_char_exec(&s, '>'), find_char_exec(&s, '<')) {
        (Some(te), Some(lt)) => {
            if lt + 1 >= te {
                c.len()
            } else {
                let name = slice_chars(&s, lt + 1, te);
                let close = concat(&concat(&chars_of("</"), &name), &chars_of(">"));
                match past_exec(c, &close) {
                    Some(q) => q,
                    None => c.len(),
                }
            }
        },
        _ => c.len(),
    }
}

/// Advance `cursor` past the next complete XML value element.
pub fn advance_past_value(cursor: &str) -> (r: String)
    ensures
        r@ == advance_past(cursor@),
{
    let c = chars_of(cursor);
    let n = advance_len_exec(&c);
    let rest = slice_chars(&c, n, c.len());
    assert(rest@ =~= c@.skip(n as int));
    string_of(&rest)
}

fn key_is(key: &Vec<char>, lit: &str) -> (r: bool)
    ensures
        r == (key@ == lit@),
{
    crate::text::eq_chars(key, &chars_of(lit))
}

fn apply_key_exec(info: &mut DiskInfo, key: &Vec<char>, value: &Vec<char>)
    ensures
        final(info)@ == apply_key(old(info)@, key@, value@),
{
    let t = chars_of("<true/>");
    if key_is(key, "WholeDisk") {
        info.whole_disk = starts_with_exec(value, &t);
    } else if key_is(key, "Ejectable") || key_is(key, "Removable") || key_is(key, "RemovableMedia")
        || key_is(key, "RemovableMediaOrExternalDevice") {
        if starts_with_exec(value, &t) {
            info.removable = true;
        }
    } else if key_is(key, "ReadOnly") {
        info.read_only = starts_with_exec(value, &t);
    } else if key_is(key, "TotalSize") || key_is(key, "DiskSize") {
        if info.size_bytes == 0 {
            if let Some(v) = extract_integer(string_of(value).as_str()) {
                info.size_bytes = v;
            }
        }
    } else if key_is(key, "MountPoint") {
        if let Some(v) = plist_string_exec(value) {
            if v.len() > 0 {
                info.mount_point = Some(string_of(&v));
            }
        }
    } else if key_is(key, "USBVendorID") {
        if let Some(v) = extract_integer(string_of(value).as_str()) {
            info.usb_vendor_id = Some(v as u16);
        }
    } else if key_is(key, "USBProductID") {
        if let Some(v) = extract_integer(string_of(value).as_str()) {
            info.usb_product_id = Some(v as u16);
        }
    }
}

/// Parse the `diskutil info -plist` output for a single disk.
pub fn parse_disk_info_plist(plist: &str, _bsd_name: &str) -> (r: Option<DiskInfo>)
    ensures
        match r {
            Some(info) => disk_info_of(plist@) == Some(info@),
            None => disk_info_of(plist@) is None,
        },
{
    let mut info = DiskInfo {
        whole_disk: false,
        removable: false,
        size_bytes: 0,
        read_only: false,
        mount_point: None,
        usb_vendor_id: None,
        usb_product_id: None,
        usb_serial: None,
        io_registry_entry_id: None,
    };
    let mut cursor = chars_of(plist);
    let key_open = chars_of("<key>");
    let key_close = chars_of("</key>");
    proof {
        reveal_strlit("<key>");
        reveal_strlit("</key>");
    }
    loop
        invariant
            key_open@ == "<key>"@,
            key_close@ == "</key>"@,
            key_open@.len() == 5,
            key_close@.len() == 6,
            scan_keys(empty_disk(), plist@) == scan_keys(info@, cursor@),
        ensures
            scan_keys(empty_disk(), plist@) == Some(info@),
        decreases cursor.len(),
    {
        match past_exec(&cursor, &key_open) {
            None => {
                break;
            },
            Some(a) => {
                proof {
                    lemma_past(cursor@, key_open@);
                }
                let c1 = slice_chars(&cursor, a, cursor.len());
                assert(c1@ =~= cursor@.skip(a as int));
                match find_exec(&c1, &key_close) {
                    None => {
                        return None;
                    },
                    Some(ke) => {
                        proof {
                            lemma_find_from_facts(c1@, key_close@, 0);
                        }
                        let key = trim_exec(&slice_chars(&c1, 0, ke));
                        assert(c1@.subrange(0, ke as int) =~= c1@.take(ke as int));
                        let c2 = slice_chars(&c1, ke + 6, c1.len());
                        assert(c2@ =~= c1@.skip(ke + 6));
                        let vstart = match find_char_exec(&c2, '<') {
                            Some(p) => p,
                            None => c2.len(),
                        };
                        let tail = slice_chars(&c2, vstart, c2.len());
                        assert(tail@ =~= c2@.skip(vstart as int));
                        let value = trim_start_exec(&tail);
                        let n = advance_len_exec(&c2);
                        let c3 = slice_chars(&c2, n, c2.len());
                        assert(c3@ =~= c2@.skip(n as int));
                        apply_key_exec(&mut info, &key, &value);
                        cursor = c3;
                    },
                }
            },
        }
    }
    if info.size_bytes == 0 {
        return None;
    }
    Some(info)
}

// ---------------------------------------------------------------------------
// The drive for a disk
// ---------------------------------------------------------------------------

/// A USB device as the disks are matched against it: its IOKit registry
/// entry id and its descriptor data.
pub struct UsbCandidate {
    pub registry_id: u64,
    pub info: UsbInfo,
}

/// A device with registry entry id `x`.
pub open spec fn registry_is(x: u64) -> spec_fn(UsbCandidate) -> bool {
    |d: UsbCandidate| d.registry_id == x
}

/// A device with these vendor id, product id and serial number.
pub open spec fn ids_and_serial_are(v: u16, p: u16, sn: Seq<char>) -> spec_fn(UsbCandidate) -> bool {
    |d: UsbCandidate| d.info.vendor_id == v && d.info.product_id == p && info_text(d.info.serial) == Some(sn)
}

/// A device with these vendor and product ids.
pub open spec fn ids_are(v: u16, p: u16) -> spec_fn(UsbCandidate) -> bool {
    |d: UsbCandidate| d.info.vendor_id == v && d.info.product_id == p
}

/// The USB device of a disk: the first with the disk's registry entry id;
/// else the first with its vendor id, product id and serial number; else the
/// first with its vendor and product ids.
pub open spec fn matched_device(
    c: Seq<UsbCandidate>,
    rid: Option<u64>,
    vid: Option<u16>,
    pid: Option<u16>,
    serial: Option<Seq<char>>,
) -> Option<int> {
    let by_registry = match rid {
        Some(x) => first_where(c, registry_is(x)),
        None => None,
    };
    let by_serial = match (vid, pid, serial) {
        (Some(v), Some(p), Some(sn)) => first_where(c, ids_and_serial_are(v, p, sn)),
        _ => None,
    };
    let by_ids = match (vid, pid) {
        (Some(v), Some(p)) => first_where(c, ids_are(v, p)),
        _ => None,
    };
    if by_registry is Some {
        by_registry
    } else if by_serial is Some {
        by_serial
    } else {
        by_ids
    }
}

fn same_text(a: &Option<String>, b: &String) -> (r: bool)
    ensures
        r == (info_text(*a) == Some(b@)),
{
    match a {
        Some(x) => crate::text::eq_chars(&chars_of_string(x), &chars_of_string(b)),
        None => false,
    }
}

/// The USB device of a disk (see `matched_device`).
#[verifier::loop_isolation(false)]
pub fn match_usb_device(
    c: &Vec<UsbCandidate>,
    rid: Option<u64>,
    vid: Option<u16>,
    pid: Option<u16>,
    serial: &Option<String>,
) -> (r: Option<usize>)
    ensures
        match r {
            Some(i) => matched_device(c@, rid, vid, pid, opt_seq(*serial)) == Some(i as int) && i < c.len(),
            None => matched_device(c@, rid, vid, pid, opt_seq(*serial)) is None,
        },
{
    let ghost cs = c@;
    let ghost by_registry = match rid {
        Some(x) => first_where(cs, registry_is(x)),
        None => None,
    };
    let ghost by_serial = match (vid, pid, opt_seq(*serial)) {
        (Some(v), Some(p), Some(sn)) => first_where(cs, ids_and_serial_are(v, p, sn)),
        _ => None,
    };
    if let Some(x) = rid {
        let ghost q = registry_is(x);
        let mut i: usize = 0;
        while i < c.len()
            invariant
                i <= c.len(),
                cs == c@,
                q == registry_is(x),
                forall|m: int| 0 <= m < i ==> !q(#[trigger] cs[m]),
            decreases c.len() - i,
        {
            assert(cs[i as int] == c@[i as int]);
            if c[i].registry_id == x {
                proof {
                    lemma_first_where_at(cs, q, i as int);
                }
                return Some(i);
            }
            i += 1;
        }
        proof {
            lemma_first_where_at(cs, q, i as int);
        }
    }
    assert(by_registry is None);
    if let (Some(v), Some(p), Some(sn)) = (vid, pid, serial) {
        let ghost q = ids_and_serial_are(v, p, sn@);
        let mut i: usize = 0;
        while i < c.len()
            invariant
                i <= c.len(),
                cs == c@,
                q == ids_and_serial_are(v, p, sn@),
                forall|m: int| 0 <= m < i ==> !q(#[trigger] cs[m]),
            decreases c.len() - i,
        {
            assert(cs[i as int] == c@[i as int]);
            if c[i].info.vendor_id == v && c[i].info.product_id == p && same_text(&c[i].info.serial, sn) {
                proof {
                    lemma_first_where_at(cs, q, i as int);
                }
                return Some(i);
            }
            i += 1;
        }
        proof {
            lemma_first_where_at(cs, q, i as int);
        }
    }
    assert(by_serial is None);
    if let (Some(v), Some(p)) = (vid, pid) {
        let ghost q = ids_are(v, p);
        let mut i: usize = 0;
        while i < c.len()
            invariant
                i <= c.len(),
                cs == c@,
                q == ids_are(v, p),
                forall|m: int| 0 <= m < i ==> !q(#[trigger] cs[m]),
            decreases c.len() - i,
        {
            assert(cs[i as int] == c@[i as int]);
            if c[i].info.vendor_id == v && c[i].info.product_id == p {
                proof {
                    lemma_first_where_at(cs, q, i as int);
                }
                return Some(i);
            }
            i += 1;
        }
        proof {
            lemma_first_where_at(cs, q, i as int);
        }
    }
    None
}

/// The USB data of a disk: that of its USB device, or, unmatched, its ids
/// (zero when unknown) and serial number.
pub open spec fn disk_usb_info(d: DiskModel, c: Seq<UsbCandidate>) -> UsbModel {
    match matched_device(c, d.io_registry_entry_id, d.usb_vendor_id, d.usb_product_id, d.usb_serial) {
        Some(i) => c[i].info@,
        None => UsbModel {
            vendor_id: match d.usb_vendor_id {
                Some(v) => v,
                None => 0,
            },
            product_id: match d.usb_product_id {
                Some(p) => p,
                None => 0,
            },
            manufacturer: None,
            product: None,
            serial: d.usb_serial,
            speed: None,
        },
    }
}

/// The drive for a disk `diskutil` reports: only a whole, removable disk of
/// non-zero size.  It is written through its raw node `/dev/r<name>`, shown
/// at its mount point (else at that node), named after its USB device (or,
/// unmatched, after its ids), and never a system drive.
pub open spec fn macos_drive_of(d: DiskModel, bsd: Seq<char>, c: Seq<UsbCandidate>) -> Option<DriveModel> {
    if !d.whole_disk || !d.removable || d.size_bytes == 0 {
        None
    } else {
        let u = disk_usb_info(d, c);
        let label = usb_label(u.manufacturer, u.product, u.vendor_id, u.product_id);
        let node = "/dev/r"@ + bsd;
        Some(
            DriveModel {
                name: display_name(label, bsd),
                device_path: node,
                mount_point: match d.mount_point {
                    Some(m) => m,
                    None => node,
                },
                size_bytes: d.size_bytes,
                is_system: false,
                is_read_only: d.read_only,
                usb_info: Some(u),
            },
        )
    }
}

/// The drive for a disk (see `macos_drive_of`).
pub fn macos_drive(d: &DiskInfo, bsd_name: &str, c: &Vec<UsbCandidate>) -> (r: Option<DriveInfo>)
    ensures
        match r {
            Some(x) => macos_drive_of(d@, bsd_name@, c@) == Some(x@),
            None => macos_drive_of(d@, bsd_name@, c@) is None,
        },
        r is Some <==> (d.whole_disk && d.removable && d.size_bytes > 0),
        match r {
            Some(x) => x.is_read_only == d.read_only && !x.is_system && x.size_bytes == d.size_bytes,
            None => true,
        },
{
    if !d.whole_disk || !d.removable || d.size_bytes == 0 {
        return None;
    }
    let info = match match_usb_device(c, d.io_registry_entry_id, d.usb_vendor_id, d.usb_product_id, &d.usb_serial) {
        Some(i) => c[i].info.clone(),
        None => UsbInfo {
            vendor_id: match d.usb_vendor_id {
                Some(v) => v,
                None => 0,
            },
            product_id: match d.usb_product_id {
                Some(p) => p,
                None => 0,
            },
            manufacturer: None,
            product: None,
            serial: match &d.usb_serial {
                Some(s) => Some(s.clone()),
                None => None,
            },
            speed: None,
        },
    };
    let name = build_display_name(&info, bsd_name);
    let mut node = chars_of("/dev/r");
    let b = chars_of(bsd_name);
    let mut k: usize = 0;
    while k < b.len()
        invariant
            k <= b.len(),
            node@ == "/dev/r"@ + b@.take(k as int),
        decreases b.len() - k,
    {
        node.push(b[k]);
        assert(b@.take(k as int + 1) =~= b@.take(k as int).push(b@[k as int]));
        k += 1;
    }
    assert(b@.take(b.len() as int) =~= b@);
    let device_path = string_of(&node);
    let mount_point = match &d.mount_point {
        Some(m) => m.clone(),
        None => device_path.clone(),
    };
    Some(
        DriveInfo {
            name,
            device_path,
            mount_point,
            size_bytes: d.size_bytes,
            is_system: false,
            is_read_only: d.read_only,
            usb_info: Some(info),
        },
    )
}

/// What `diskutil` reports of a disk is carried into its drive: a disk is
/// offered exactly when it is whole, removable and of non-zero size; the
/// drive is then written through the raw node `/dev/r<name>`, has the
/// disk's size, is flagged read-only exactly when `diskutil` reports the
/// disk read-only (so a write-locked card is blocked as a target), is never
/// a system drive, is shown at the disk's mount point (else at its node),
/// and carries USB data.
pub proof fn law_macos_drive_keeps_disk_facts(d: DiskModel, bsd: Seq<char>, c: Seq<UsbCandidate>)
    ensures
        macos_drive_of(d, bsd, c) is Some <==> (d.whole_disk && d.removable && d.size_bytes > 0),
        match macos_drive_of(d, bsd, c) {
            Some(x) => {
                &&& x.is_read_only == d.read_only
                &&& !x.is_system
                &&& x.device_path == "/dev/r"@ + bsd
                &&& x.size_bytes == d.size_bytes
                &&& x.mount_point == (match d.mount_point {
                    Some(m) => m,
                    None => "/dev/r"@ + bsd,
                })
                &&& x.usb_info is Some
            },
            None => true,
        },
{
}

/// A candidate carries IOKit registry entry id `x`.
pub open spec fn has_registry_id(d: UsbCandidate, x: u64) -> bool {
    d.registry_id == x
}

/// A candidate reports vendor id `v`, product id `p` and serial `sn`.
pub open spec fn has_ids_serial(d: UsbCandidate, v: u16, p: u16, sn: Seq<char>) -> bool {
    d.info.vendor_id == v && d.info.product_id == p && (d.info.serial matches Some(s) && s@ == sn)
}

/// A candidate reports vendor id `v` and product id `p`.
pub open spec fn has_ids(d: UsbCandidate, v: u16, p: u16) -> bool {
    d.info.vendor_id == v && d.info.product_id == p
}

/// No candidate carries the registry entry id, if there is one.
pub open spec fn no_registry_match(c: Seq<UsbCandidate>, rid: Option<u64>) -> bool {
    match rid {
        Some(x) => forall|i: int| 0 <= i < c.len() ==> !has_registry_id(#[trigger] c[i], x),
        None => true,
    }
}

/// No candidate reports the ids and serial, if all three are known.
pub open spec fn no_serial_match(c: Seq<UsbCandidate>, vid: Option<u16>, pid: Option<u16>, serial: Option<Seq<char>>) -> bool {
    match (vid, pid, serial) {
        (Some(v), Some(p), Some(sn)) => forall|i: int| 0 <= i < c.len() ==> !has_ids_serial(#[trigger] c[i], v, p, sn),
        _ => true,
    }
}

/// A disk is matched to a USB device by the most reliable evidence first:
/// the first device with the disk's registry entry id wins; when none has
/// it, the first with the disk's vendor id, product id and serial; when
/// none has those, the first with its vendor and product ids.
pub proof fn law_macos_match_order(
    c: Seq<UsbCandidate>,
    rid: Option<u64>,
    vid: Option<u16>,
    pid: Option<u16>,
    serial: Option<Seq<char>>,
    j: int,
)
    requires
        0 <= j < c.len(),
    ensures
        rid matches Some(x) && has_registry_id(c[j], x) && (forall|i: int|
            0 <= i < j ==> !has_registry_id(#[trigger] c[i], x)) ==> matched_device(c, rid, vid, pid, serial)
            == Some(j),
        vid matches Some(v) && pid matches Some(p) && serial matches Some(sn) && no_registry_match(c, rid)
            && has_ids_serial(c[j], v, p, sn) && (forall|i: int| 0 <= i < j ==> !has_ids_serial(#[trigger] c[i], v, p, sn))
            ==> matched_device(c, rid, vid, pid, serial) == Some(j),
        vid matches Some(v) && pid matches Some(p) && no_registry_match(c, rid) && no_serial_match(c, vid, pid, serial)
            && has_ids(c[j], v, p) && (forall|i: int| 0 <= i < j ==> !has_ids(#[trigger] c[i], v, p))
            ==> matched_device(c, rid, vid, pid, serial) == Some(j),
{
    if let Some(x) = rid {
        assert forall|i: int| 0 <= i < c.len() implies registry_is(x)(c[i]) == has_registry_id(#[trigger] c[i], x) by {}
        if has_registry_id(c[j], x) && (forall|i: int| 0 <= i < j ==> !has_registry_id(#[trigger] c[i], x)) {
            lemma_first_where_at(c, registry_is(x), j);
        }
        if forall|i: int| 0 <= i < c.len() ==> !has_registry_id(#[trigger] c[i], x) {
            lemma_first_where_at(c, registry_is(x), c.len() as int);
        }
    }
    if let (Some(v), Some(p), Some(sn)) = (vid, pid, serial) {
        assert forall|i: int| 0 <= i < c.len() implies ids_and_serial_are(v, p, sn)(c[i]) == has_ids_serial(
            #[trigger] c[i],
            v,
            p,
            sn,
        ) by {}
        if has_ids_serial(c[j], v, p, sn) && (forall|i: int| 0 <= i < j ==> !has_ids_serial(#[trigger] c[i], v, p, sn)) {
            lemma_first_where_at(c, ids_and_serial_are(v, p, sn), j);
        }
        if forall|i: int| 0 <= i < c.len() ==> !has_ids_serial(#[trigger] c[i], v, p, sn) {
            lemma_first_where_at(c, ids_and_serial_are(v, p, sn), c.len() as int);
        }
    }
    if let (Some(v), Some(p)) = (vid, pid) {
        assert forall|i: int| 0 <= i < c.len() implies ids_are(v, p)(c[i]) == has_ids(#[trigger] c[i], v, p) by {}
        if has_ids(c[j], v, p) && (forall|i: int| 0 <= i < j ==> !has_ids(#[trigger] c[i], v, p)) {
            lemma_first_where_at(c, ids_are(v, p), j);
        }
    }
}

} // verus!
