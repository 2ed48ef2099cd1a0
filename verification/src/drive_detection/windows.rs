//! Reading `wmic diskdrive … /format:csv` output.
//!
//! ```text
//! Node,DeviceID,Model,SerialNumber,Size
//! HOSTNAME,\\.\PhysicalDrive1,SanDisk Ultra USB3.0,AA01234567890,32012804608
//! ```
use vstd::prelude::*;
use crate::drive_detection::{UsbInfo, UsbModel, build_display_name, display_name, first_where, lemma_first_where_at, usb_label};
use crate::drive_detection::opt_view as info_text;
use crate::external::{lowercase_of, to_lowercase};
use crate::tui::{DriveInfo, DriveModel};
use crate::text::{after_last, after_last_exec};
use crate::text::{
    nonblank, nonblank_exec, chars_of, chars_of_string, contains, contains_exec, eq_chars, lines, lines_exec, parse_u64,
    parse_u64_exec, split_char, split_char_exec, string_of, trim, trim_exec, views,
};

verus! {

/// A USB disk drive listed by `wmic`.
#[derive(Debug, Clone)]
pub struct WmicDisk {
    /// `\\.\PhysicalDriveN`
    pub device_id: String,
    /// Size in bytes (0 if unknown).
    pub size_bytes: u64,
    /// Model string (may be empty).
    pub model: String,
    /// Serial number (may be empty).
    pub serial: String,
}

/// The mathematical value of a [`WmicDisk`].
pub struct WmicModel {
    pub device_id: Seq<char>,
    pub size_bytes: u64,
    pub model: Seq<char>,
    pub serial: Seq<char>,
}

impl View for WmicDisk {
    type V = WmicModel;

    open spec fn view(&self) -> WmicModel {
        WmicModel {
            device_id: self.device_id@,
            size_bytes: self.size_bytes,
            model: self.model@,
            serial: self.serial@,
        }
    }
}

/// The first line from `i` on that, lower-cased, mentions `deviceid`.
pub open spec fn header_index_from(ls: Seq<Seq<char>>, i: int) -> Option<int>
    decreases ls.len() - i,
{
    if i < 0 || i >= ls.len() {
        None
    } else if contains(lowercase_of(ls[i]), lowercase_of("DeviceID"@)) {
        Some(i)
    } else {
        header_index_from(ls, i + 1)
    }
}

/// The first column whose trimmed, lower-cased name is `name` lower-cased.
pub open spec fn column_from(cols: Seq<Seq<char>>, name: Seq<char>, j: int) -> Option<int>
    decreases cols.len() - j,
{
    if j < 0 || j >= cols.len() {
        None
    } else if lowercase_of(trim(cols[j])) == lowercase_of(name) {
        Some(j)
    } else {
        column_from(cols, name, j + 1)
    }
}

/// The trimmed field at a column, or the empty text.
pub open spec fn field(fields: Seq<Seq<char>>, ix: Option<int>) -> Seq<char> {
    match ix {
        Some(i) => if 0 <= i < fields.len() {
            trim(fields[i])
        } else {
            seq![]
        },
        None => seq![],
    }
}

/// The column positions of device id, size, model and serial number.
pub struct Columns {
    pub device: Option<int>,
    pub size: Option<int>,
    pub model: Option<int>,
    pub serial: Option<int>,
}

pub open spec fn columns_of(header: Seq<char>) -> Columns {
    let cols = split_char(header, ',');
    Columns {
        device: column_from(cols, "DeviceID"@, 0),
        size: column_from(cols, "Size"@, 0),
        model: column_from(cols, "Model"@, 0),
        serial: column_from(cols, "SerialNumber"@, 0),
    }
}

/// The disk a data row describes, when its device id names a physical
/// drive.
pub open spec fn row_disk(cols: Columns, line: Seq<char>) -> Option<WmicModel> {
    let fields = split_char(line, ',');
    let dev = field(fields, cols.device);
    if dev.len() == 0 || !contains(dev, "PhysicalDrive"@) {
        None
    } else {
        Some(
            WmicModel {
                device_id: dev,
                size_bytes: match parse_u64(field(fields, cols.size)) {
                    Some(n) => n,
                    None => 0,
                },
                model: field(fields, cols.model),
                serial: field(fields, cols.serial),
            },
        )
    }
}

/// The disks of the data rows, in order.
pub open spec fn rows_disks(cols: Columns, rows: Seq<Seq<char>>) -> Seq<WmicModel>
    decreases rows.len(),
{
    if rows.len() == 0 {
        seq![]
    } else {
        let rest = rows_disks(cols, rows.drop_last());
        match row_disk(cols, rows.last()) {
            Some(d) => rest.push(d),
            None => rest,
        }
    }
}

/// The disks listed by `wmic` CSV output: the first non-blank line that
/// mentions `DeviceID` is the header, every later non-blank line a row.
pub open spec fn wmic_disks(csv: Seq<char>) -> Seq<WmicModel> {
    let ls = nonblank(lines(csv));
    match header_index_from(ls, 0) {
        None => seq![],
        Some(h) => rows_disks(columns_of(ls[h]), ls.skip(h + 1)),
    }
}

fn lowercase_chars(v: &Vec<char>) -> (r: Vec<char>)
    ensures
        r@ == lowercase_of(v@),
{
    let s = string_of(v);
    let l = to_lowercase(s.as_str());
    chars_of_string(&l)
}

fn column_index(cols: &Vec<Vec<char>>, name: &str) -> (r: Option<usize>)
    ensures
        match r {
            Some(j) => column_from(views(cols@), name@, 0) == Some(j as int),
            None => column_from(views(cols@), name@, 0) is None,
        },
{
    let target = lowercase_chars(&chars_of(name));
    let mut j: usize = 0;
    while j < cols.len()
        invariant
            j <= cols.len(),
            target@ == lowercase_of(name@),
            column_from(views(cols@), name@, 0) == column_from(views(cols@), name@, j as int),
        decreases cols.len() - j,
    {
        assert(views(cols@)[j as int] == cols@[j as int]@);
        let c = lowercase_chars(&trim_exec(&cols[j]));
        if eq_chars(&c, &target) {
            return Some(j);
        }
        j += 1;
    }
    None
}

fn field_exec(fields: &Vec<Vec<char>>, ix: Option<usize>) -> (r: Vec<char>)
    ensures
        r@ == field(
            views(fields@),
            match ix {
                Some(i) => Some(i as int),
                None => None,
            },
        ),
{
    match ix {
        Some(i) => {
            if i < fields.len() {
                assert(views(fields@)[i as int] == fields@[i as int]@);
                trim_exec(&fields[i])
            } else {
                let r: Vec<char> = Vec::new();
                assert(r@ =~= seq![]);
                r
            }
        },
        None => {
            let r: Vec<char> = Vec::new();
            assert(r@ =~= seq![]);
            r
        },
    }
}

pub open spec fn opt_int(o: Option<usize>) -> Option<int> {
    match o {
        Some(i) => Some(i as int),
        None => None,
    }
}

/// Parse `wmic` CSV output into the listed physical drives.
pub fn parse_wmic_csv(csv: &str) -> (r: Vec<WmicDisk>)
    ensures
        r@.map_values(|d: WmicDisk| d@) == wmic_disks(csv@),
{
    let raw = lines_exec(&chars_of(csv));
    let ls = nonblank_exec(&raw);
    let needle = lowercase_chars(&chars_of("DeviceID"));
    let mut h: usize = 0;
    while h < ls.len()
        invariant
            h <= ls.len(),
            needle@ == lowercase_of("DeviceID"@),
            header_index_from(views(ls@), 0) == header_index_from(views(ls@), h as int),
        ensures
            h <= ls.len(),
            h < ls.len() ==> header_index_from(views(ls@), 0) == Some(h as int),
            h == ls.len() ==> header_index_from(views(ls@), 0) is None,
        decreases ls.len() - h,
    {
        assert(views(ls@)[h as int] == ls@[h as int]@);
        if contains_exec(&lowercase_chars(&ls[h]), &needle) {
            break;
        }
        h += 1;
    }
    let mut out: Vec<WmicDisk> = Vec::new();
    if h == ls.len() {
        assert(out@.map_values(|d: WmicDisk| d@) =~= seq![]);
        return out;
    }
    assert(header_index_from(views(ls@), 0) == Some(h as int));
    assert(views(ls@)[h as int] == ls@[h as int]@);
    let cols = split_char_exec(&ls[h], ',');
    let i_dev = column_index(&cols, "DeviceID");
    let i_size = column_index(&cols, "Size");
    let i_model = column_index(&cols, "Model");
    let i_serial = column_index(&cols, "SerialNumber");
    let ghost cm = columns_of(views(ls@)[h as int]);
    assert(cm.device == opt_int(i_dev));
    assert(cm.size == opt_int(i_size));
    assert(cm.model == opt_int(i_model));
    assert(cm.serial == opt_int(i_serial));
    let ghost rows = views(ls@).skip(h + 1);
    let mut i = h + 1;
    while i < ls.len()
        invariant
            h < i <= ls.len(),
            rows == views(ls@).skip(h + 1),
            cm.device == opt_int(i_dev),
            cm.size == opt_int(i_size),
            cm.model == opt_int(i_model),
            cm.serial == opt_int(i_serial),
            out@.map_values(|d: WmicDisk| d@) == rows_disks(cm, rows.take(i - h - 1)),
        decreases ls.len() - i,
    {
        assert(rows.take(i - h).drop_last() =~= rows.take(i - h - 1));
        assert(rows.take(i - h).last() == ls@[i as int]@);
        let fields = split_char_exec(&ls[i], ',');
        let dev = field_exec(&fields, i_dev);
        let phys = chars_of("PhysicalDrive");
        if dev.len() > 0 && contains_exec(&dev, &phys) {
            let size_text = field_exec(&fields, i_size);
            let size_bytes = match parse_u64_exec(&size_text) {
                Some(n) => n,
                None => 0,
            };
            let model = field_exec(&fields, i_model);
            let serial = field_exec(&fields, i_serial);
            let d = WmicDisk {
                device_id: string_of(&dev),
                size_bytes,
                model: string_of(&model),
                serial: string_of(&serial),
            };
            let ghost o0 = out@.map_values(|d: WmicDisk| d@);
            out.push(d);
            assert(out@.map_values(|d: WmicDisk| d@) =~= o0.push(d@));
        }
        i += 1;
    }
    assert(rows.take(ls.len() - h - 1) =~= rows);
    out
}

// ---------------------------------------------------------------------------
// The drive for a disk
// ---------------------------------------------------------------------------

/// A device whose serial number, trimmed, is `st`.
pub open spec fn serial_is(st: Seq<char>) -> spec_fn(UsbInfo) -> bool {
    |u: UsbInfo| match info_text(u.serial) {
        Some(s) => trim(s) == st,
        None => false,
    }
}

/// A text lower-cased, or empty when absent.
pub open spec fn lower_or_empty(o: Option<Seq<char>>) -> Seq<char> {
    match o {
        Some(s) => lowercase_of(s),
        None => Seq::empty(),
    }
}

/// A device whose lower-cased product or manufacturer string (an absent
/// one counts as empty) occurs in `model_lower`.
pub open spec fn named_in(model_lower: Seq<char>) -> spec_fn(UsbInfo) -> bool {
    |u: UsbInfo|
        contains(model_lower, lower_or_empty(info_text(u.product))) || contains(
            model_lower,
            lower_or_empty(info_text(u.manufacturer)),
        )
}

/// The USB device of a `wmic` disk: the first whose serial matches the
/// disk's (both trimmed), when the disk has one; else, when the disk has a
/// model, the first whose product or manufacturer occurs in it, ignoring
/// case.
pub open spec fn wmic_match(infos: Seq<UsbInfo>, serial: Seq<char>, model: Seq<char>) -> Option<int> {
    let by_serial = if serial.len() > 0 {
        first_where(infos, serial_is(trim(serial)))
    } else {
        None
    };
    if by_serial is Some {
        by_serial
    } else if model.len() > 0 {
        first_where(infos, named_in(lowercase_of(model)))
    } else {
        None
    }
}

fn lower_or_empty_exec(o: &Option<String>) -> (r: Vec<char>)
    ensures
        r@ == lower_or_empty(info_text(*o)),
{
    match o {
        Some(s) => chars_of_string(&to_lowercase(s.as_str())),
        None => Vec::new(),
    }
}

/// The USB device of a `wmic` disk (see `wmic_match`).
#[verifier::loop_isolation(false)]
pub fn match_wmic_device(infos: &Vec<UsbInfo>, serial: &str, model: &str) -> (r: Option<usize>)
    ensures
        match r {
            Some(i) => wmic_match(infos@, serial@, model@) == Some(i as int) && i < infos.len(),
            None => wmic_match(infos@, serial@, model@) is None,
        },
{
    let ghost us = infos@;
    let sv = chars_of(serial);
    if sv.len() > 0 {
        let st = trim_exec(&sv);
        let ghost q = serial_is(st@);
        let mut i: usize = 0;
        while i < infos.len()
            invariant
                i <= infos.len(),
                us == infos@,
                q == serial_is(st@),
                forall|m: int| 0 <= m < i ==> !q(#[trigger] us[m]),
            decreases infos.len() - i,
        {
            assert(us[i as int] == infos@[i as int]);
            let hit = match &infos[i].serial {
                Some(s) => eq_chars(&trim_exec(&chars_of_string(s)), &st),
                None => false,
            };
            if hit {
                proof {
                    lemma_first_where_at(us, q, i as int);
                }
                return Some(i);
            }
            i += 1;
        }
        proof {
            lemma_first_where_at(us, q, i as int);
        }
    }
    let mv = chars_of(model);
    if mv.len() > 0 {
        let ml = chars_of_string(&to_lowercase(model));
        let ghost q = named_in(ml@);
        let mut i: usize = 0;
        while i < infos.len()
            invariant
                i <= infos.len(),
                us == infos@,
                q == named_in(ml@),
                forall|m: int| 0 <= m < i ==> !q(#[trigger] us[m]),
            decreases infos.len() - i,
        {
            assert(us[i as int] == infos@[i as int]);
            let product = lower_or_empty_exec(&infos[i].product);
            let maker = lower_or_empty_exec(&infos[i].manufacturer);
            if contains_exec(&ml, &product) || contains_exec(&ml, &maker) {
                proof {
                    lemma_first_where_at(us, q, i as int);
                }
                return Some(i);
            }
            i += 1;
        }
        proof {
            lemma_first_where_at(us, q, i as int);
        }
    }
    None
}

/// The drive for a `wmic` disk of non-zero size: its device id serves as
/// device path and mount point, it is named after its USB device (or,
/// unmatched, after its model) with the part of the device id after the
/// last `\` as device name, and it is neither a system drive nor
/// read-only.
pub open spec fn windows_drive_of(d: WmicModel, infos: Seq<UsbInfo>) -> Option<DriveModel> {
    if d.size_bytes == 0 {
        None
    } else {
        let u = wmic_usb_info(d, infos);
        Some(
            DriveModel {
                name: display_name(usb_label(u.manufacturer, u.product, u.vendor_id, u.product_id), after_last(d.device_id, '\\')),
                device_path: d.device_id,
                mount_point: d.device_id,
                size_bytes: d.size_bytes,
                is_system: false,
                is_read_only: false,
                usb_info: Some(u),
            },
        )
    }
}

/// The USB data of a `wmic` disk: that of its USB device, or, unmatched,
/// zero ids with its model as product and its serial number (each only
/// when not empty).
pub open spec fn wmic_usb_info(d: WmicModel, infos: Seq<UsbInfo>) -> UsbModel {
    match wmic_match(infos, d.serial, d.model) {
        Some(i) => infos[i]@,
        None => UsbModel {
            vendor_id: 0,
            product_id: 0,
            manufacturer: None,
            product: if d.model.len() == 0 {
                None
            } else {
                Some(d.model)
            },
            serial: if d.serial.len() == 0 {
                None
            } else {
                Some(d.serial)
            },
            speed: None,
        },
    }
}

/// The drive for a `wmic` disk (see `windows_drive_of`).
pub fn windows_drive(d: &WmicDisk, infos: &Vec<UsbInfo>) -> (r: Option<DriveInfo>)
    ensures
        match r {
            Some(x) => windows_drive_of(d@, infos@) == Some(x@),
            None => windows_drive_of(d@, infos@) is None,
        },
{
    if d.size_bytes == 0 {
        return None;
    }
    let short = string_of(&after_last_exec(&chars_of_string(&d.device_id), '\\'));
    let info = match match_wmic_device(infos, d.serial.as_str(), d.model.as_str()) {
        Some(i) => infos[i].clone(),
        None => {
            let product = if chars_of_string(&d.model).len() == 0 {
                None
            } else {
                Some(d.model.clone())
            };
            let serial = if chars_of_string(&d.serial).len() == 0 {
                None
            } else {
                Some(d.serial.clone())
            };
            UsbInfo { vendor_id: 0, product_id: 0, manufacturer: None, product, serial, speed: None }
        },
    };
    let name = build_display_name(&info, short.as_str());
    Some(
        DriveInfo {
            name,
            device_path: d.device_id.clone(),
            mount_point: d.device_id.clone(),
            size_bytes: d.size_bytes,
            is_system: false,
            is_read_only: false,
            usb_info: Some(info),
        },
    )
}

/// Whether a USB device reports a serial number equal, once both are
/// trimmed, to `serial`.
pub open spec fn has_serial(u: UsbInfo, serial: Seq<char>) -> bool {
    u.serial matches Some(s) && trim(s@) == trim(serial)
}

/// Whether a USB device's product or manufacturer string, lower-cased (an
/// absent one counts as empty), occurs in the lower-cased model text.
pub open spec fn named_by_model(u: UsbInfo, model: Seq<char>) -> bool {
    ||| contains(lowercase_of(model), match u.product { Some(p) => lowercase_of(p@), None => Seq::empty() })
    ||| contains(lowercase_of(model), match u.manufacturer { Some(m) => lowercase_of(m@), None => Seq::empty() })
}

/// A `wmic` disk is matched to its USB device by serial number before
/// anything else: when the disk has a serial and some device reports the
/// same one (both trimmed), the match is the first such device, whatever
/// the model says; only when no device has that serial does the model
/// decide, and then the match is the first device whose product or
/// manufacturer occurs in the model, ignoring case.
pub proof fn law_wmic_serial_before_model(infos: Seq<UsbInfo>, serial: Seq<char>, model: Seq<char>, j: int)
    requires
        0 <= j <= infos.len(),
    ensures
        serial.len() > 0 && j < infos.len() && has_serial(infos[j], serial) && (forall|i: int|
            0 <= i < j ==> !has_serial(#[trigger] infos[i], serial)) ==> wmic_match(infos, serial, model) == Some(
            j,
        ),
        (serial.len() == 0 || forall|i: int| 0 <= i < infos.len() ==> !has_serial(#[trigger] infos[i], serial))
            && model.len() > 0 && j < infos.len() && named_by_model(infos[j], model) && (forall|i: int|
            0 <= i < j ==> !named_by_model(#[trigger] infos[i], model)) ==> wmic_match(infos, serial, model)
            == Some(j),
        (serial.len() == 0 || forall|i: int| 0 <= i < infos.len() ==> !has_serial(#[trigger] infos[i], serial))
            && (model.len() == 0 || forall|i: int| 0 <= i < infos.len() ==> !named_by_model(#[trigger] infos[i], model))
            ==> wmic_match(infos, serial, model) is None,
{
    let qs = serial_is(trim(serial));
    let qm = named_in(lowercase_of(model));
    assert forall|i: int| 0 <= i < infos.len() implies qs(infos[i]) == has_serial(#[trigger] infos[i], serial) by {}
    assert forall|i: int| 0 <= i < infos.len() implies qm(infos[i]) == named_by_model(#[trigger] infos[i], model) by {}
    if serial.len() > 0 && j < infos.len() && has_serial(infos[j], serial) && (forall|i: int|
        0 <= i < j ==> !has_serial(#[trigger] infos[i], serial)) {
        lemma_first_where_at(infos, qs, j);
    }
    if serial.len() == 0 || forall|i: int| 0 <= i < infos.len() ==> !has_serial(#[trigger] infos[i], serial) {
        if serial.len() > 0 {
            lemma_first_where_at(infos, qs, infos.len() as int);
        }
        if model.len() > 0 && j < infos.len() && named_by_model(infos[j], model) && (forall|i: int|
            0 <= i < j ==> !named_by_model(#[trigger] infos[i], model)) {
            lemma_first_where_at(infos, qm, j);
        }
        if model.len() > 0 && forall|i: int| 0 <= i < infos.len() ==> !named_by_model(#[trigger] infos[i], model) {
            lemma_first_where_at(infos, qm, infos.len() as int);
        }
    }
}

/// What `wmic` reports of a disk is carried into its drive: a disk is
/// offered exactly when its size is not zero; the drive is then reached and
/// shown through its device id, has the disk's size, is neither a system
/// drive nor read-only, and carries the USB data of the device its serial
/// (before its model) matched: when some device reports the disk's serial,
/// the first such one.
pub proof fn law_windows_drive_keeps_disk_facts(d: WmicModel, infos: Seq<UsbInfo>, j: int)
    requires
        0 <= j <= infos.len(),
    ensures
        windows_drive_of(d, infos) is Some <==> d.size_bytes > 0,
        match windows_drive_of(d, infos) {
            Some(x) => {
                &&& x.device_path == d.device_id
                &&& x.mount_point == d.device_id
                &&& x.size_bytes == d.size_bytes
                &&& !x.is_system
                &&& !x.is_read_only
                &&& x.usb_info is Some
            },
            None => true,
        },
        d.size_bytes > 0 && d.serial.len() > 0 && j < infos.len() && has_serial(infos[j], d.serial) && (forall|i: int|
            0 <= i < j ==> !has_serial(#[trigger] infos[i], d.serial)) ==> windows_drive_of(d, infos)->0.usb_info
            == Some(infos[j]@),
{
    law_wmic_serial_before_model(infos, d.serial, d.model, j);
}

} // verus!
