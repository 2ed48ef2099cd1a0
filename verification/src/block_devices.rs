//! The desktop front-end's drive list, built from the kernel's block-device
//! table and the mounted file systems.
//!
//! The caller reads `/sys/block` (each device's name and the raw contents of
//! its `size`, `device/vendor` and `device/model` files, where they could be
//! read) and the list of mounted disks; everything else is decided here:
//! which devices are virtual, how a drive is named, where it is mounted, and
//! the order of the list.
use vstd::prelude::*;
use crate::external::{file_name, path_file_name};
use crate::file_explorer::{lex_lt, lex_less, lemma_lex_irrefl, lemma_lex_trans};
use crate::text::{
    chars_of, chars_of_string, parse_u64, parse_u64_exec, push_all, slice_chars, starts_with, starts_with_exec,
    string_of, trim, trim_exec, eq_chars, utf8_len, utf8_width, after_last, after_last_exec,
};

verus! {

// ---------------------------------------------------------------------------
// Inputs and results
// ---------------------------------------------------------------------------

/// A mounted disk as the system lists it.
pub struct MountedDisk {
    /// The disk's name (often its device node, e.g. `/dev/sdb1`).
    pub name: String,
    /// Where it is mounted; empty when it is not.
    pub mount_point: String,
}

pub struct MountedModel {
    pub name: Seq<char>,
    pub mount_point: Seq<char>,
}

impl View for MountedDisk {
    type V = MountedModel;

    open spec fn view(&self) -> MountedModel {
        MountedModel { name: self.name@, mount_point: self.mount_point@ }
    }
}

/// A block device of `/sys/block`, with the raw contents of its attribute
/// files (`None` where a file could not be read).
pub struct BlockDevice {
    pub name: String,
    /// Contents of `size`: the size in 512-byte sectors.
    pub size: Option<String>,
    /// Contents of `device/vendor`.
    pub vendor: Option<String>,
    /// Contents of `device/model`.
    pub model: Option<String>,
}

pub struct BlockModel {
    pub name: Seq<char>,
    pub size: Option<Seq<char>>,
    pub vendor: Option<Seq<char>>,
    pub model: Option<Seq<char>>,
}

pub open spec fn opt_view(o: Option<String>) -> Option<Seq<char>> {
    match o {
        Some(s) => Some(s@),
        None => None,
    }
}

impl View for BlockDevice {
    type V = BlockModel;

    open spec fn view(&self) -> BlockModel {
        BlockModel {
            name: self.name@,
            size: opt_view(self.size),
            vendor: opt_view(self.vendor),
            model: opt_view(self.model),
        }
    }
}

/// A drive of the list.
#[derive(Debug)]
pub struct ScannedDrive {
    /// Display name: vendor and model, or a volume label, and the device.
    pub name: String,
    /// Where the drive or one of its partitions is mounted, else its device
    /// node.
    pub mount_point: String,
    /// Size in 512-byte sectors.
    pub size_sectors: u64,
    /// The device node, `/dev/<name>`.
    pub device_path: String,
}

pub struct ScannedModel {
    pub name: Seq<char>,
    pub mount_point: Seq<char>,
    pub size_sectors: u64,
    pub device_path: Seq<char>,
}

impl View for ScannedDrive {
    type V = ScannedModel;

    open spec fn view(&self) -> ScannedModel {
        ScannedModel {
            name: self.name@,
            mount_point: self.mount_point@,
            size_sectors: self.size_sectors,
            device_path: self.device_path@,
        }
    }
}

pub open spec fn disks_view(s: Seq<MountedDisk>) -> Seq<MountedModel> {
    s.map_values(|d: MountedDisk| d@)
}

pub open spec fn blocks_view(s: Seq<BlockDevice>) -> Seq<BlockModel> {
    s.map_values(|d: BlockDevice| d@)
}

pub open spec fn scanned_view(s: Seq<ScannedDrive>) -> Seq<ScannedModel> {
    s.map_values(|d: ScannedDrive| d@)
}

// ---------------------------------------------------------------------------
// The table of mounted devices
// ---------------------------------------------------------------------------

/// The key a mounted disk is filed under: the last component of a name that
/// is a path, else the name itself.
pub open spec fn mount_key(name: Seq<char>) -> Seq<char> {
    if starts_with(name, "/"@) {
        match path_file_name(name) {
            Some(n) => n,
            None => name,
        }
    } else {
        name
    }
}

/// The key a mounted disk is filed under (see `mount_key`).
fn mount_key_exec(name: &String) -> (r: Vec<char>)
    ensures
        r@ == mount_key(name@),
{
    let n = chars_of_string(name);
    if starts_with_exec(&n, &chars_of("/")) {
        match file_name(name.as_str()) {
            Some(f) => chars_of_string(&f),
            None => n,
        }
    } else {
        n
    }
}

/// The first entry of the table filed under `k`.
pub open spec fn key_index(t: Seq<(Seq<char>, Seq<char>)>, k: Seq<char>) -> Option<int>
    decreases t.len(),
{
    if t.len() == 0 {
        None
    } else if t[0].0 == k {
        Some(0)
    } else {
        match key_index(t.drop_first(), k) {
            Some(j) => Some(j + 1),
            None => None,
        }
    }
}

/// The first entry of the table whose key starts with `dev`.
pub open spec fn prefixed_index(t: Seq<(Seq<char>, Seq<char>)>, dev: Seq<char>) -> Option<int>
    decreases t.len(),
{
    if t.len() == 0 {
        None
    } else if starts_with(t[0].0, dev) {
        Some(0)
    } else {
        match prefixed_index(t.drop_first(), dev) {
            Some(j) => Some(j + 1),
            None => None,
        }
    }
}

/// The table after filing mount point `v` under `k`: a later disk with the
/// same key replaces the earlier one's mount point.
pub open spec fn filed(t: Seq<(Seq<char>, Seq<char>)>, k: Seq<char>, v: Seq<char>) -> Seq<(Seq<char>, Seq<char>)> {
    match key_index(t, k) {
        Some(j) => t.update(j, (k, v)),
        None => t.push((k, v)),
    }
}

/// The mounted disks as a table from key to mount point, one entry per key,
/// in the order the keys first appear; disks that are not mounted are left
/// out.  The table is a list of pairs with distinct keys, standing where a
/// `HashMap<String, String>` would: with `String` keys std's map offers no
/// specification to prove lookups against, while the list's is below.
pub open spec fn table_of(disks: Seq<MountedModel>) -> Seq<(Seq<char>, Seq<char>)>
    decreases disks.len(),
{
    if disks.len() == 0 {
        Seq::empty()
    } else {
        let t = table_of(disks.drop_last());
        let d = disks.last();
        if d.mount_point.len() == 0 {
            t
        } else {
            filed(t, mount_key(d.name), d.mount_point)
        }
    }
}

proof fn lemma_key_index(t: Seq<(Seq<char>, Seq<char>)>, k: Seq<char>)
    ensures
        match key_index(t, k) {
            Some(j) => 0 <= j < t.len() && t[j].0 == k && forall|i: int| 0 <= i < j ==> (#[trigger] t[i]).0 != k,
            None => forall|i: int| 0 <= i < t.len() ==> (#[trigger] t[i]).0 != k,
        },
    decreases t.len(),
{
    if t.len() > 0 {
        lemma_key_index(t.drop_first(), k);
        assert forall|i: int| 0 < i < t.len() implies t[i] == t.drop_first()[i - 1] by {}
    }
}

proof fn lemma_key_index_at(t: Seq<(Seq<char>, Seq<char>)>, k: Seq<char>, j: int)
    requires
        0 <= j <= t.len(),
        forall|i: int| 0 <= i < j ==> (#[trigger] t[i]).0 != k,
        j < t.len() ==> t[j].0 == k,
    ensures
        key_index(t, k) == (if j < t.len() { Some(j) } else { None::<int> }),
    decreases j,
{
    if j > 0 {
        let u = t.drop_first();
        assert forall|i: int| 0 <= i < j - 1 implies (#[trigger] u[i]).0 != k by {
            assert(u[i] == t[i + 1]);
        }
        if j < t.len() {
            assert(u[j - 1] == t[j]);
        }
        assert(t[0].0 != k);
        lemma_key_index_at(u, k, j - 1);
    }
}

proof fn lemma_prefixed_index_at(t: Seq<(Seq<char>, Seq<char>)>, dev: Seq<char>, j: int)
    requires
        0 <= j <= t.len(),
        forall|i: int| 0 <= i < j ==> !starts_with((#[trigger] t[i]).0, dev),
        j < t.len() ==> starts_with(t[j].0, dev),
    ensures
        prefixed_index(t, dev) == (if j < t.len() { Some(j) } else { None::<int> }),
    decreases j,
{
    if j > 0 {
        let u = t.drop_first();
        assert forall|i: int| 0 <= i < j - 1 implies !starts_with((#[trigger] u[i]).0, dev) by {
            assert(u[i] == t[i + 1]);
        }
        if j < t.len() {
            assert(u[j - 1] == t[j]);
        }
        assert(!starts_with(t[0].0, dev));
        lemma_prefixed_index_at(u, dev, j - 1);
    }
}

pub open spec fn table_view(t: Seq<(Vec<char>, Vec<char>)>) -> Seq<(Seq<char>, Seq<char>)> {
    t.map_values(|e: (Vec<char>, Vec<char>)| (e.0@, e.1@))
}

/// The index of the entry filed under `k`, if any.
fn find_key(t: &Vec<(Vec<char>, Vec<char>)>, k: &Vec<char>) -> (r: Option<usize>)
    ensures
        match r {
            Some(j) => key_index(table_view(t@), k@) == Some(j as int),
            None => key_index(table_view(t@), k@) is None,
        },
{
    let ghost tv = table_view(t@);
    let mut i: usize = 0;
    while i < t.len()
        invariant
            i <= t.len(),
            tv == table_view(t@),
            forall|m: int| 0 <= m < i ==> (#[trigger] tv[m]).0 != k@,
        decreases t.len() - i,
    {
        assert(tv[i as int] == (t@[i as int].0@, t@[i as int].1@));
        if eq_chars(&t[i].0, k) {
            proof {
                lemma_key_index_at(tv, k@, i as int);
            }
            return Some(i);
        }
        i += 1;
    }
    proof {
        lemma_key_index_at(tv, k@, i as int);
    }
    None
}

/// The index of the first entry whose key starts with `dev`, if any.
fn find_prefixed(t: &Vec<(Vec<char>, Vec<char>)>, dev: &Vec<char>) -> (r: Option<usize>)
    ensures
        match r {
            Some(j) => prefixed_index(table_view(t@), dev@) == Some(j as int),
            None => prefixed_index(table_view(t@), dev@) is None,
        },
{
    let ghost tv = table_view(t@);
    let mut i: usize = 0;
    while i < t.len()
        invariant
            i <= t.len(),
            tv == table_view(t@),
            forall|m: int| 0 <= m < i ==> !starts_with((#[trigger] tv[m]).0, dev@),
        decreases t.len() - i,
    {
        assert(tv[i as int] == (t@[i as int].0@, t@[i as int].1@));
        if starts_with_exec(&t[i].0, dev) {
            proof {
                lemma_prefixed_index_at(tv, dev@, i as int);
            }
            return Some(i);
        }
        i += 1;
    }
    proof {
        lemma_prefixed_index_at(tv, dev@, i as int);
    }
    None
}

/// The table of mounted devices (see `table_of`).
fn mount_table(disks: &Vec<MountedDisk>) -> (r: Vec<(Vec<char>, Vec<char>)>)
    ensures
        table_view(r@) == table_of(disks_view(disks@)),
{
    let ghost dv = disks_view(disks@);
    let mut t: Vec<(Vec<char>, Vec<char>)> = Vec::new();
    let mut i: usize = 0;
    assert(dv.take(0) =~= Seq::<MountedModel>::empty());
    assert(table_view(t@) =~= Seq::<(Seq<char>, Seq<char>)>::empty());
    while i < disks.len()
        invariant
            i <= disks.len(),
            dv == disks_view(disks@),
            table_view(t@) == table_of(dv.take(i as int)),
        decreases disks.len() - i,
    {
        let ghost tv = table_view(t@);
        assert(dv.take(i as int + 1).drop_last() =~= dv.take(i as int));
        assert(dv.take(i as int + 1).last() == disks@[i as int]@);
        let mp = chars_of_string(&disks[i].mount_point);
        if mp.len() > 0 {
            let k = mount_key_exec(&disks[i].name);
            match find_key(&t, &k) {
                Some(j) => {
                    proof {
                        lemma_key_index(tv, k@);
                    }
                    t.set(j, (k, mp));
                    assert(table_view(t@) =~= tv.update(j as int, (k@, mp@)));
                },
                None => {
                    t.push((k, mp));
                    assert(table_view(t@) =~= tv.push((k@, mp@)));
                },
            }
        }
        i += 1;
    }
    assert(dv.take(disks.len() as int) =~= dv);
    t
}

// ---------------------------------------------------------------------------
// One device
// ---------------------------------------------------------------------------

/// Loop devices, RAM disks, device-mapper and compressed-RAM devices are
/// virtual and never listed.
pub open spec fn is_virtual(dev: Seq<char>) -> bool {
    starts_with(dev, "loop"@) || starts_with(dev, "ram"@) || starts_with(dev, "dm-"@) || starts_with(dev, "zram"@)
}

/// Whether a device is virtual (see `is_virtual`).
pub fn virtual_device(dev: &str) -> (r: bool)
    ensures
        r == is_virtual(dev@),
{
    let d = chars_of(dev);
    starts_with_exec(&d, &chars_of("loop")) || starts_with_exec(&d, &chars_of("ram"))
        || starts_with_exec(&d, &chars_of("dm-")) || starts_with_exec(&d, &chars_of("zram"))
}

/// An attribute file's value: its trimmed contents, when readable and not
/// blank.
pub open spec fn field_value(raw: Option<Seq<char>>) -> Option<Seq<char>> {
    match raw {
        Some(s) => if trim(s).len() > 0 {
            Some(trim(s))
        } else {
            None
        },
        None => None,
    }
}

fn field_value_exec(raw: &Option<String>) -> (r: Option<Vec<char>>)
    ensures
        match r {
            Some(v) => field_value(opt_view(*raw)) == Some(v@),
            None => field_value(opt_view(*raw)) is None,
        },
{
    match raw {
        Some(s) => {
            let t = trim_exec(&chars_of_string(s));
            if t.len() > 0 {
                Some(t)
            } else {
                None
            }
        },
        None => None,
    }
}

/// The size in sectors: the trimmed contents of `size` read as a number, 0
/// when unreadable or not a number.
pub open spec fn sectors_of(raw: Option<Seq<char>>) -> u64 {
    match raw {
        Some(s) => match parse_u64(trim(s)) {
            Some(n) => n,
            None => 0,
        },
        None => 0,
    }
}

fn sectors_exec(raw: &Option<String>) -> (r: u64)
    ensures
        r == sectors_of(opt_view(*raw)),
{
    match raw {
        Some(s) => match parse_u64_exec(&trim_exec(&chars_of_string(s))) {
            Some(n) => n,
            None => 0,
        },
        None => 0,
    }
}

fn longer_than_two_bytes(s: &Vec<char>) -> (r: bool)
    ensures
        r == (utf8_len(s@) > 2),
{
    let mut acc: u32 = 0;
    let mut i: usize = 0;
    while i < s.len()
        invariant
            i <= s.len(),
            acc == utf8_len(s@.take(i as int)),
            acc <= 2,
        decreases s.len() - i,
    {
        assert(s@.take(i as int + 1).drop_last() =~= s@.take(i as int));
        let c = s[i] as u32;
        let w: u32 = if c < 0x80 {
            1
        } else if c < 0x800 {
            2
        } else if c < 0x10000 {
            3
        } else {
            4
        };
        acc = acc + w;
        i += 1;
        if acc > 2 {
            proof {
                lemma_utf8_len_prefix(s@, i as int);
            }
            return true;
        }
    }
    assert(s@.take(i as int) =~= s@);
    false
}

proof fn lemma_utf8_len_prefix(s: Seq<char>, i: int)
    requires
        0 <= i <= s.len(),
    ensures
        utf8_len(s.take(i)) <= utf8_len(s),
    decreases s.len() - i,
{
    if i < s.len() {
        lemma_utf8_len_prefix(s, i + 1);
        assert(s.take(i + 1).drop_last() =~= s.take(i));
    } else {
        assert(s.take(i) =~= s);
    }
}

/// A mount point's last component is taken as the volume's label when it is
/// not empty, does not look like a device node (`sd…`), and is more than two
/// bytes long.
pub open spec fn usable_label(label: Seq<char>) -> bool {
    label.len() > 0 && !starts_with(label, "sd"@) && utf8_len(label) > 2
}

/// A drive's display name: `vendor model (dev)` or `model (dev)` where the
/// device reports them; else the label of the first mounted entry whose key
/// starts with the device name, `label (dev)`, when it is usable; else the
/// device name.
pub open spec fn display_name(
    dev: Seq<char>,
    vendor: Option<Seq<char>>,
    model: Option<Seq<char>>,
    t: Seq<(Seq<char>, Seq<char>)>,
) -> Seq<char> {
    match (vendor, model) {
        (Some(v), Some(m)) => v + " "@ + m + " ("@ + dev + ")"@,
        (None, Some(m)) => m + " ("@ + dev + ")"@,
        _ => match prefixed_index(t, dev) {
            Some(j) => if usable_label(after_last(t[j].1, '/')) {
                after_last(t[j].1, '/') + " ("@ + dev + ")"@
            } else {
                dev
            },
            None => dev,
        },
    }
}

/// Where a drive is shown as mounted: its own entry, else the first entry
/// whose key starts with its name (a partition), else `/dev/<dev>`.
pub open spec fn mounted_at(dev: Seq<char>, t: Seq<(Seq<char>, Seq<char>)>) -> Seq<char> {
    match key_index(t, dev) {
        Some(j) => t[j].1,
        None => match prefixed_index(t, dev) {
            Some(j) => t[j].1,
            None => "/dev/"@ + dev,
        },
    }
}

/// The list entry for a device, or `None` for a virtual device or one of
/// size zero.
pub open spec fn scanned(b: BlockModel, t: Seq<(Seq<char>, Seq<char>)>) -> Option<ScannedModel> {
    if is_virtual(b.name) || sectors_of(b.size) == 0 {
        None
    } else {
        Some(
            ScannedModel {
                name: display_name(b.name, field_value(b.vendor), field_value(b.model), t),
                mount_point: mounted_at(b.name, t),
                size_sectors: sectors_of(b.size),
                device_path: "/dev/"@ + b.name,
            },
        )
    }
}

fn lookup_prefixed_index_bound(t: &Vec<(Vec<char>, Vec<char>)>, dev: &Vec<char>) -> (r: Option<usize>)
    ensures
        match r {
            Some(j) => prefixed_index(table_view(t@), dev@) == Some(j as int) && j < t.len(),
            None => prefixed_index(table_view(t@), dev@) is None,
        },
{
    let r = find_prefixed(t, dev);
    proof {
        lemma_prefixed_index_bound(table_view(t@), dev@);
    }
    r
}

proof fn lemma_prefixed_index_bound(t: Seq<(Seq<char>, Seq<char>)>, dev: Seq<char>)
    ensures
        match prefixed_index(t, dev) {
            Some(j) => 0 <= j < t.len(),
            None => true,
        },
    decreases t.len(),
{
    if t.len() > 0 {
        lemma_prefixed_index_bound(t.drop_first(), dev);
    }
}

fn with_device(mut a: Vec<char>, dev: &Vec<char>) -> (r: Vec<char>)
    ensures
        r@ == a@ + " ("@ + dev@ + ")"@,
{
    push_all(&mut a, &chars_of(" ("));
    push_all(&mut a, dev);
    push_all(&mut a, &chars_of(")"));
    a
}

/// The list entry for one device (see `scanned`).
fn scan_one(b: &BlockDevice, t: &Vec<(Vec<char>, Vec<char>)>) -> (r: Option<ScannedDrive>)
    ensures
        match r {
            Some(d) => scanned(b@, table_view(t@)) == Some(d@),
            None => scanned(b@, table_view(t@)) is None,
        },
{
    let ghost tv = table_view(t@);
    let sectors = sectors_exec(&b.size);
    if virtual_device(b.name.as_str()) || sectors == 0 {
        return None;
    }
    let dev = chars_of_string(&b.name);
    let vendor = field_value_exec(&b.vendor);
    let model = field_value_exec(&b.model);
    let name = match (vendor, model) {
        (Some(v), Some(m)) => {
            let mut a = v;
            push_all(&mut a, &chars_of(" "));
            push_all(&mut a, &m);
            with_device(a, &dev)
        },
        (None, Some(m)) => with_device(m, &dev),
        _ => match lookup_prefixed_index_bound(t, &dev) {
            Some(j) => {
                assert(tv[j as int] == (t@[j as int].0@, t@[j as int].1@));
                let label = after_last_exec(&t[j].1, '/');
                if label.len() > 0 && !starts_with_exec(&label, &chars_of("sd")) && longer_than_two_bytes(&label) {
                    with_device(label, &dev)
                } else {
                    dev.clone()
                }
            },
            None => dev.clone(),
        },
    };
    let mount = match find_key(t, &dev) {
        Some(j) => {
            proof {
                lemma_key_index(tv, dev@);
            }
            assert(tv[j as int] == (t@[j as int].0@, t@[j as int].1@));
            t[j].1.clone()
        },
        None => match lookup_prefixed_index_bound(t, &dev) {
            Some(j) => {
                assert(tv[j as int] == (t@[j as int].0@, t@[j as int].1@));
                t[j].1.clone()
            },
            None => {
                let mut p = chars_of("/dev/");
                push_all(&mut p, &dev);
                p
            },
        },
    };
    let mut path = chars_of("/dev/");
    push_all(&mut path, &dev);
    Some(
        ScannedDrive {
            name: string_of(&name),
            mount_point: string_of(&mount),
            size_sectors: sectors,
            device_path: string_of(&path),
        },
    )
}

// ---------------------------------------------------------------------------
// The list
// ---------------------------------------------------------------------------

/// The entries for the devices, in the order given, virtual and empty ones
/// left out.
pub open spec fn scan_list(devs: Seq<BlockModel>, t: Seq<(Seq<char>, Seq<char>)>) -> Seq<ScannedModel>
    decreases devs.len(),
{
    if devs.len() == 0 {
        Seq::empty()
    } else {
        let rest = scan_list(devs.drop_last(), t);
        match scanned(devs.last(), t) {
            Some(d) => rest.push(d),
            None => rest,
        }
    }
}

/// Where an entry named `k` goes into a list sorted by name: after every
/// entry whose name is not greater.
pub open spec fn name_slot(s: Seq<ScannedModel>, k: Seq<char>) -> int
    decreases s.len(),
{
    if s.len() == 0 {
        0
    } else if lex_lt(k, s[0].name) {
        0
    } else {
        1 + name_slot(s.drop_first(), k)
    }
}

/// The stable sort of entries by name (`sort_by` on the names, which
/// compares them character by character).
pub open spec fn sort_by_name(s: Seq<ScannedModel>) -> Seq<ScannedModel>
    decreases s.len(),
{
    if s.len() == 0 {
        s
    } else {
        let sorted = sort_by_name(s.drop_last());
        sorted.insert(name_slot(sorted, s.last().name), s.last())
    }
}

proof fn lemma_name_slot(s: Seq<ScannedModel>, k: Seq<char>)
    ensures
        0 <= name_slot(s, k) <= s.len(),
        forall|i: int| 0 <= i < name_slot(s, k) ==> !lex_lt(k, #[trigger] s[i].name),
        name_slot(s, k) < s.len() ==> lex_lt(k, s[name_slot(s, k)].name),
    decreases s.len(),
{
    if s.len() > 0 && !lex_lt(k, s[0].name) {
        let t = s.drop_first();
        lemma_name_slot(t, k);
        assert forall|i: int| 0 <= i < name_slot(s, k) implies !lex_lt(k, #[trigger] s[i].name) by {
            if i > 0 {
                assert(s[i] == t[i - 1]);
            }
        }
        if name_slot(s, k) < s.len() {
            assert(s[name_slot(s, k)] == t[name_slot(t, k)]);
        }
    }
}

proof fn lemma_name_slot_at(s: Seq<ScannedModel>, k: Seq<char>, j: int)
    requires
        0 <= j <= s.len(),
        forall|i: int| 0 <= i < j ==> !lex_lt(k, #[trigger] s[i].name),
        j == s.len() || lex_lt(k, s[j].name),
    ensures
        name_slot(s, k) == j,
    decreases j,
{
    if j > 0 {
        assert(!lex_lt(k, s[0].name));
        let t = s.drop_first();
        assert forall|i: int| 0 <= i < j - 1 implies !lex_lt(k, #[trigger] t[i].name) by {
            assert(t[i] == s[i + 1]);
        }
        if j < s.len() {
            assert(t[j - 1] == s[j]);
        }
        lemma_name_slot_at(t, k, j - 1);
    } else if s.len() > 0 {
        assert(lex_lt(k, s[0].name));
    }
}

/// The drive list: one entry per real device of non-zero size, sorted by
/// display name, devices with equal names in the order given.
///
/// The mounted disks are looked up in the order of `table_of`: by first
/// appearance of their keys.  Where several mounted entries share a device's
/// name as prefix, the first in that order names and places the drive.
pub fn scan_drives(devices: &Vec<BlockDevice>, disks: &Vec<MountedDisk>) -> (r: Vec<ScannedDrive>)
    ensures
        scanned_view(r@) == sort_by_name(scan_list(blocks_view(devices@), table_of(disks_view(disks@)))),
{
    let t = mount_table(disks);
    let ghost tv = table_view(t@);
    let ghost bv = blocks_view(devices@);
    let mut out: Vec<ScannedDrive> = Vec::new();
    let mut i: usize = 0;
    assert(bv.take(0) =~= Seq::<BlockModel>::empty());
    assert(scanned_view(out@) =~= Seq::<ScannedModel>::empty());
    while i < devices.len()
        invariant
            i <= devices.len(),
            bv == blocks_view(devices@),
            tv == table_view(t@),
            tv == table_of(disks_view(disks@)),
            scanned_view(out@) == sort_by_name(scan_list(bv.take(i as int), tv)),
        decreases devices.len() - i,
    {
        assert(bv.take(i as int + 1).drop_last() =~= bv.take(i as int));
        assert(bv.take(i as int + 1).last() == devices@[i as int]@);
        match scan_one(&devices[i], &t) {
            Some(d) => {
                let key = chars_of_string(&d.name);
                let ghost ov = scanned_view(out@);
                let mut j: usize = 0;
                while j < out.len() && !lex_less(&key, &chars_of_string(&out[j].name))
                    invariant
                        j <= out.len(),
                        ov == scanned_view(out@),
                        key@ == d@.name,
                        forall|m: int| 0 <= m < j ==> !lex_lt(key@, #[trigger] ov[m].name),
                    decreases out.len() - j,
                {
                    assert(ov[j as int] == out@[j as int]@);
                    j += 1;
                }
                proof {
                    if j < out.len() {
                        assert(ov[j as int] == out@[j as int]@);
                    }
                    lemma_name_slot_at(ov, key@, j as int);
                }
                let ghost dv = d@;
                out.insert(j, d);
                assert(scanned_view(out@) =~= ov.insert(j as int, dv));
                proof {
                    let prev = scan_list(bv.take(i as int), tv);
                    assert(scan_list(bv.take(i as int + 1), tv) == prev.push(dv));
                    assert(prev.push(dv).drop_last() =~= prev);
                }
            },
            None => {},
        }
        i += 1;
    }
    assert(bv.take(devices.len() as int) =~= bv);
    out
}

// ---------------------------------------------------------------------------
// Laws
// ---------------------------------------------------------------------------

/// The list is sorted by name and holds exactly the scanned entries.
pub proof fn law_drive_list_sorted(s: Seq<ScannedModel>)
    ensures
        forall|i: int, j: int|
            0 <= i < j < sort_by_name(s).len() ==> !lex_lt(
                (#[trigger] sort_by_name(s)[j]).name,
                (#[trigger] sort_by_name(s)[i]).name,
            ),
        sort_by_name(s).to_multiset() == s.to_multiset(),
    decreases s.len(),
{
    broadcast use vstd::seq_lib::to_multiset_insert, vstd::seq_lib::to_multiset_build, vstd::seq_lib::to_multiset_len;

    if s.len() > 0 {
        let r = sort_by_name(s.drop_last());
        law_drive_list_sorted(s.drop_last());
        let x = s.last();
        let k = x.name;
        let j = name_slot(r, k);
        lemma_name_slot(r, k);
        let t = r.insert(j, x);
        assert(sort_by_name(s) == t);
        assert forall|a: int, b: int| 0 <= a < b < t.len() implies !lex_lt(
            (#[trigger] t[b]).name,
            (#[trigger] t[a]).name,
        ) by {
            if b < j {
                assert(t[a] == r[a] && t[b] == r[b]);
            } else if b == j {
                assert(t[a] == r[a] && t[b] == x);
            } else if a < j {
                assert(t[a] == r[a] && t[b] == r[b - 1]);
            } else if a == j {
                assert(t[a] == x && t[b] == r[b - 1]);
                let y = r[b - 1].name;
                let z = r[j].name;
                if lex_lt(y, k) {
                    lemma_lex_trans(y, k, z);
                    if b - 1 == j {
                        lemma_lex_irrefl(z);
                    }
                }
            } else {
                assert(t[a] == r[a - 1] && t[b] == r[b - 1]);
            }
        }
        assert(s.drop_last().push(x) =~= s);
    }
}

/// Every listed drive is a real device of non-zero size: its device node is
/// `/dev/` followed by a name that is not a virtual device's.
pub proof fn law_only_real_devices_listed(devs: Seq<BlockModel>, t: Seq<(Seq<char>, Seq<char>)>)
    ensures
        forall|i: int|
            0 <= i < scan_list(devs, t).len() ==> {
                let d = #[trigger] scan_list(devs, t)[i];
                &&& d.size_sectors > 0
                &&& d.device_path.len() >= 5
                &&& d.device_path.take(5) == "/dev/"@
                &&& !is_virtual(d.device_path.skip(5))
            },
    decreases devs.len(),
{
    if devs.len() > 0 {
        let u = devs.drop_last();
        law_only_real_devices_listed(u, t);
        let rest = scan_list(u, t);
        assert forall|i: int| 0 <= i < scan_list(devs, t).len() implies {
            let d = #[trigger] scan_list(devs, t)[i];
            &&& d.size_sectors > 0
            &&& d.device_path.len() >= 5
            &&& d.device_path.take(5) == "/dev/"@
            &&& !is_virtual(d.device_path.skip(5))
        } by {
            if i < rest.len() {
                assert(scan_list(devs, t)[i] == rest[i]);
            } else {
                let b = devs.last();
                assert(scanned(b, t) is Some);
                let d = scanned(b, t)->Some_0;
                assert(scan_list(devs, t)[i] == d);
                reveal_strlit("/dev/");
                assert(d.device_path.take(5) =~= "/dev/"@);
                assert(d.device_path.skip(5) =~= b.name);
            }
        }
    }
}

} // verus!
