//! Drive detection: the decisions and parsers behind USB block-device
//! enumeration.
//!
//! The operating-system queries (sysfs, `/proc/mounts`, `diskutil`, `wmic`,
//! the USB stack) are made by the caller; this module decides which devices
//! are offered, where they are mounted, how they are named, and reads the
//! textual output of the platform tools.
use vstd::prelude::*;
use crate::text::{chars_of, chars_of_string, concat, contains, contains_exec, string_of};

pub mod linux;
pub mod macos;
pub mod windows;

verus! {

// ---------------------------------------------------------------------------
// USB metadata and display names
// ---------------------------------------------------------------------------

/// The speed class a USB device reports.
#[derive(Debug, Clone, Copy, PartialEq, Eq)]
pub enum UsbSpeed {
    Low,
    Full,
    High,
    Super,
    SuperPlus,
    /// Any speed class this crate does not name.
    Other,
}

pub open spec fn speed_text(s: UsbSpeed) -> Seq<char> {
    match s {
        UsbSpeed::Low => "Low Speed (1.5 Mbps)"@,
        UsbSpeed::Full => "Full Speed (12 Mbps)"@,
        UsbSpeed::High => "High Speed (480 Mbps)"@,
        UsbSpeed::Super => "SuperSpeed (5 Gbps)"@,
        UsbSpeed::SuperPlus => "SuperSpeed+ (10 Gbps)"@,
        UsbSpeed::Other => "Unknown speed"@,
    }
}

/// A human-readable description of a USB speed class.
pub fn speed_string(speed: UsbSpeed) -> (r: String)
    ensures
        r@ == speed_text(speed),
{
    match speed {
        UsbSpeed::Low => crate::text::string_of_seq_str("Low Speed (1.5 Mbps)"),
        UsbSpeed::Full => crate::text::string_of_seq_str("Full Speed (12 Mbps)"),
        UsbSpeed::High => crate::text::string_of_seq_str("High Speed (480 Mbps)"),
        UsbSpeed::Super => crate::text::string_of_seq_str("SuperSpeed (5 Gbps)"),
        UsbSpeed::SuperPlus => crate::text::string_of_seq_str("SuperSpeed+ (10 Gbps)"),
        UsbSpeed::Other => crate::text::string_of_seq_str("Unknown speed"),
    }
}

/// USB descriptor data of a drive.
#[derive(Debug)]
pub struct UsbInfo {
    pub vendor_id: u16,
    pub product_id: u16,
    pub manufacturer: Option<String>,
    pub product: Option<String>,
    pub serial: Option<String>,
    pub speed: Option<String>,
}

/// USB descriptor data as plain values.
pub struct UsbModel {
    pub vendor_id: u16,
    pub product_id: u16,
    pub manufacturer: Option<Seq<char>>,
    pub product: Option<Seq<char>>,
    pub serial: Option<Seq<char>>,
    pub speed: Option<Seq<char>>,
}

impl View for UsbInfo {
    type V = UsbModel;

    open spec fn view(&self) -> UsbModel {
        UsbModel {
            vendor_id: self.vendor_id,
            product_id: self.product_id,
            manufacturer: opt_view(self.manufacturer),
            product: opt_view(self.product),
            serial: opt_view(self.serial),
            speed: opt_view(self.speed),
        }
    }
}

fn clone_text(o: &Option<String>) -> (r: Option<String>)
    ensures
        opt_view(r) == opt_view(*o),
{
    match o {
        Some(s) => Some(s.clone()),
        None => None,
    }
}

impl Clone for UsbInfo {
    fn clone(&self) -> (r: UsbInfo)
        ensures
            r@ == self@,
    {
        UsbInfo {
            vendor_id: self.vendor_id,
            product_id: self.product_id,
            manufacturer: clone_text(&self.manufacturer),
            product: clone_text(&self.product),
            serial: clone_text(&self.serial),
            speed: clone_text(&self.speed),
        }
    }
}

/// A lower-case hexadecimal digit.
pub open spec fn hex_digit(d: int) -> char {
    if d < 10 {
        (('0' as int) + d) as char
    } else {
        (('a' as int) + d - 10) as char
    }
}

/// `format!("{:04x}", v)`.
pub open spec fn hex4(v: u16) -> Seq<char> {
    seq![
        hex_digit((v / 4096) as int),
        hex_digit(((v / 256) % 16) as int),
        hex_digit(((v / 16) % 16) as int),
        hex_digit((v % 16) as int),
    ]
}

fn hex_digit_exec(d: u16) -> (c: char)
    requires
        d < 16,
    ensures
        c == hex_digit(d as int),
{
    let b: u8 = if d < 10 {
        48 + d as u8
    } else {
        87 + d as u8
    };
    b as char
}

fn hex4_exec(v: u16) -> (r: Vec<char>)
    ensures
        r@ == hex4(v),
{
    let mut r: Vec<char> = Vec::new();
    r.push(hex_digit_exec(v / 4096));
    r.push(hex_digit_exec((v / 256) % 16));
    r.push(hex_digit_exec((v / 16) % 16));
    r.push(hex_digit_exec(v % 16));
    assert(r@ =~= hex4(v));
    r
}

pub open spec fn opt_view(o: Option<String>) -> Option<Seq<char>> {
    match o {
        Some(s) => Some(s@),
        None => None,
    }
}

/// The label of a USB device: manufacturer and product when known, else the
/// `vid:pid` pair in hexadecimal.
pub open spec fn usb_label(
    manufacturer: Option<Seq<char>>,
    product: Option<Seq<char>>,
    vid: u16,
    pid: u16,
) -> Seq<char> {
    match (manufacturer, product) {
        (Some(m), Some(p)) => m + " "@ + p,
        (None, Some(p)) => p,
        (Some(m), None) => m,
        (None, None) => hex4(vid) + ":"@ + hex4(pid),
    }
}

impl UsbInfo {
    pub open spec fn label(&self) -> Seq<char> {
        usb_label(opt_view(self.manufacturer), opt_view(self.product), self.vendor_id, self.product_id)
    }

    /// The label shown for this device.
    pub fn display_label(&self) -> (r: String)
        ensures
            r@ == self.label(),
    {
        match (&self.manufacturer, &self.product) {
            (Some(m), Some(p)) => {
                let a = concat(&chars_of_string(m), &chars_of(" "));
                let b = concat(&a, &chars_of_string(p));
                string_of(&b)
            },
            (None, Some(p)) => p.clone(),
            (Some(m), None) => m.clone(),
            (None, None) => {
                let a = concat(&hex4_exec(self.vendor_id), &chars_of(":"));
                let b = concat(&a, &hex4_exec(self.product_id));
                string_of(&b)
            },
        }
    }
}

/// The name shown in the drive selector: `"{label} ({dev_name})"`, or just
/// the device name when the label is a raw `vid:pid` (holds a `':'`).
pub open spec fn display_name(label: Seq<char>, dev_name: Seq<char>) -> Seq<char> {
    if contains(label, ":"@) {
        dev_name
    } else {
        label + " ("@ + dev_name + ")"@
    }
}

/// Build the display name shown in the drive selector.
pub fn build_display_name(info: &UsbInfo, dev_name: &str) -> (r: String)
    ensures
        r@ == display_name(info.label(), dev_name@),
{
    let label = chars_of_string(&info.display_label());
    let colon = chars_of(":");
    let dev = chars_of(dev_name);
    if contains_exec(&label, &colon) {
        string_of(&dev)
    } else {
        let a = concat(&label, &chars_of(" ("));
        let b = concat(&a, &dev);
        let c = concat(&b, &chars_of(")"));
        string_of(&c)
    }
}

// ---------------------------------------------------------------------------
// Matching disks to USB devices
// ---------------------------------------------------------------------------

/// The index of the first element satisfying `p`.
pub open spec fn first_where<A>(s: Seq<A>, p: spec_fn(A) -> bool) -> Option<int>
    decreases s.len(),
{
    if s.len() == 0 {
        None
    } else if p(s[0]) {
        Some(0)
    } else {
        match first_where(s.drop_first(), p) {
            Some(i) => Some(i + 1),
            None => None,
        }
    }
}

/// `j` is the first element satisfying `p` (the end when none does).
pub proof fn lemma_first_where_at<A>(s: Seq<A>, p: spec_fn(A) -> bool, j: int)
    requires
        0 <= j <= s.len(),
        forall|i: int| 0 <= i < j ==> !p(#[trigger] s[i]),
        j < s.len() ==> p(s[j]),
    ensures
        first_where(s, p) == (if j < s.len() { Some(j) } else { None::<int> }),
    decreases j,
{
    if j > 0 {
        let u = s.drop_first();
        assert forall|i: int| 0 <= i < j - 1 implies !p(#[trigger] u[i]) by {
            assert(u[i] == s[i + 1]);
        }
        if j < s.len() {
            assert(u[j - 1] == s[j]);
        }
        assert(!p(s[0]));
        lemma_first_where_at(u, p, j - 1);
    }
}

} // verus!
