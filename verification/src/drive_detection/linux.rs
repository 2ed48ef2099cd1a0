//! Linux block-device decisions: which `/sys/block` names are offered,
//! where a device is mounted according to `/proc/mounts`, which USB device
//! a block device belongs to, and the drive list built from all three.
use vstd::prelude::*;
use crate::drive_detection::{UsbInfo, build_display_name, display_name};
use crate::external::{file_name, path_file_name, parent, path_parent};
use crate::tui::{DriveInfo, DriveModel, drives_view, order_drives, sort_by_path};
use crate::text::{
    chars_of, chars_of_string, eq_chars, is_digit, lines, lines_exec, split_ws, starts_with,
    starts_with_exec, string_of, views, words, parse_u64, parse_u64_exec, trim, trim_exec,
};

verus! {

// ---------------------------------------------------------------------------
// Device filtering
// ---------------------------------------------------------------------------

/// Device names that are never offered as flash targets: loop devices, RAM
/// disks, device-mapper, zram, NVMe, eMMC, optical drives, and the empty name.
pub open spec fn skipped_name(name: Seq<char>) -> bool {
    ||| starts_with(name, "loop"@)
    ||| starts_with(name, "ram"@)
    ||| starts_with(name, "dm-"@)
    ||| starts_with(name, "zram"@)
    ||| starts_with(name, "nvme"@)
    ||| starts_with(name, "mmcblk"@)
    ||| starts_with(name, "sr"@)
    ||| name.len() == 0
}

fn has_prefix(v: &Vec<char>, p: &str) -> (r: bool)
    ensures
        r == starts_with(v@, p@),
{
    let pv = chars_of(p);
    starts_with_exec(v, &pv)
}

/// Return `true` for device names that should never be offered as flash
/// targets.
pub fn should_skip_device(name: &str) -> (r: bool)
    ensures
        r == skipped_name(name@),
{
    let n = chars_of(name);
    has_prefix(&n, "loop") || has_prefix(&n, "ram") || has_prefix(&n, "dm-") || has_prefix(
        &n,
        "zram",
    ) || has_prefix(&n, "nvme") || has_prefix(&n, "mmcblk") || has_prefix(&n, "sr") || n.len()
        == 0
}

// ---------------------------------------------------------------------------
// Mount table
// ---------------------------------------------------------------------------

/// An association list from bare device name to mount point; a key occurs
/// at most once.
///
/// A list of pairs rather than a `HashMap<String, String>`: with `String`
/// keys, std's map gives verified code nothing to reason with (not even
/// that a lookup finds what an insert put there), so the table keeps its
/// pairs itself, with the distinct-keys invariant that a map would have
/// given, and every lookup and insert is proved against the model below.
pub struct MountTable {
    entries: Vec<(String, String)>,
}

pub type MountModel = Seq<(Seq<char>, Seq<char>)>;

/// The first index holding key `k` at or after `i`.
pub open spec fn key_index_from(t: MountModel, k: Seq<char>, i: int) -> Option<int>
    decreases t.len() - i,
{
    if i < 0 || i >= t.len() {
        None
    } else if t[i].0 == k {
        Some(i)
    } else {
        key_index_from(t, k, i + 1)
    }
}

pub open spec fn key_index(t: MountModel, k: Seq<char>) -> Option<int> {
    key_index_from(t, k, 0)
}

/// The value stored under `k`.
pub open spec fn lookup(t: MountModel, k: Seq<char>) -> Option<Seq<char>> {
    match key_index(t, k) {
        Some(i) => Some(t[i].1),
        None => None,
    }
}

/// `HashMap::insert`: replaces the value of an existing key, or adds the
/// pair.
pub open spec fn assoc_insert(t: MountModel, k: Seq<char>, v: Seq<char>) -> MountModel {
    match key_index(t, k) {
        Some(i) => t.update(i, (k, v)),
        None => t.push((k, v)),
    }
}

pub open spec fn unique_keys(t: MountModel) -> bool {
    forall|i: int, j: int| 0 <= i < j < t.len() ==> t[i].0 != t[j].0
}

pub proof fn lemma_key_index_from(t: MountModel, k: Seq<char>, i: int)
    requires
        0 <= i,
    ensures
        key_index_from(t, k, i) matches Some(j) ==> i <= j < t.len() && t[j].0 == k && forall|
            m: int,
        |
            i <= m < j ==> t[m].0 != k,
        key_index_from(t, k, i) is None ==> forall|m: int| i <= m < t.len() ==> t[m].0 != k,
    decreases t.len() - i,
{
    if i < t.len() && t[i].0 != k {
        lemma_key_index_from(t, k, i + 1);
    }
}

/// With distinct keys, the index of a key is where it stands.
pub proof fn lemma_unique_index(t: MountModel, k: Seq<char>, i: int)
    requires
        unique_keys(t),
        0 <= i < t.len(),
        t[i].0 == k,
    ensures
        key_index(t, k) == Some(i),
        lookup(t, k) == Some(t[i].1),
{
    lemma_key_index_from(t, k, 0);
}

pub proof fn lemma_absent(t: MountModel, k: Seq<char>)
    requires
        forall|m: int| 0 <= m < t.len() ==> t[m].0 != k,
    ensures
        key_index(t, k) is None,
        lookup(t, k) is None,
{
    lemma_key_index_from(t, k, 0);
}

/// A lookup after an insert gives back the inserted mount point; other
/// devices keep theirs, and every device still appears once.
pub proof fn law_get_after_insert(t: MountModel, k: Seq<char>, v: Seq<char>)
    requires
        unique_keys(t),
    ensures
        unique_keys(assoc_insert(t, k, v)),
        lookup(assoc_insert(t, k, v), k) == Some(v),
        forall|k2: Seq<char>| k2 != k ==> #[trigger] lookup(assoc_insert(t, k, v), k2) == lookup(t, k2),
{
    lemma_key_index_from(t, k, 0);
    let t2 = assoc_insert(t, k, v);
    match key_index(t, k) {
        Some(i) => {
            assert(t2 == t.update(i, (k, v)));
            assert(unique_keys(t2));
            lemma_unique_index(t2, k, i);
        },
        None => {
            assert(t2 == t.push((k, v)));
            assert forall|a: int, b: int| 0 <= a < b < t2.len() implies t2[a].0 != t2[b].0 by {
                if b == t.len() {
                    assert(t[a].0 != k);
                }
            }
            lemma_unique_index(t2, k, t.len() as int);
        },
    }
    assert forall|k2: Seq<char>| k2 != k implies #[trigger] lookup(t2, k2) == lookup(t, k2) by {
        lemma_key_index_from(t, k2, 0);
        match key_index(t, k2) {
            Some(j) => {
                assert(t2[j] == t[j]);
                lemma_unique_index(t2, k2, j);
            },
            None => {
                assert forall|m: int| 0 <= m < t2.len() implies t2[m].0 != k2 by {
                    if m < t.len() {
                        match key_index(t, k) {
                            Some(i) => {
                                if m != i {
                                    assert(t2[m] == t[m]);
                                }
                            },
                            None => {},
                        }
                    }
                }
                lemma_absent(t2, k2);
            },
        }
    }
}

impl View for MountTable {
    type V = MountModel;

    closed spec fn view(&self) -> MountModel {
        self.entries@.map_values(|e: (String, String)| (e.0@, e.1@))
    }
}

impl MountTable {
    /// Keys are distinct.
    pub open spec fn wf(&self) -> bool {
        unique_keys(self@)
    }

    /// An empty table.
    pub fn new() -> (r: MountTable)
        ensures
            r@ == Seq::<(Seq<char>, Seq<char>)>::empty(),
            r.wf(),
    {
        let r = MountTable { entries: Vec::new() };
        assert(r@ =~= Seq::<(Seq<char>, Seq<char>)>::empty());
        r
    }

    /// The position of key `k`.
    fn index_of(&self, k: &Vec<char>) -> (r: Option<usize>)
        ensures
            match r {
                Some(i) => key_index(self@, k@) == Some(i as int) && i < self@.len(),
                None => key_index(self@, k@) is None,
            },
    {
        proof {
            lemma_key_index_from(self@, k@, 0);
        }
        let mut i: usize = 0;
        while i < self.entries.len()
            invariant
                i <= self.entries.len(),
                self@.len() == self.entries.len(),
                key_index(self@, k@) == key_index_from(self@, k@, i as int),
            decreases self.entries.len() - i,
        {
            let ek = chars_of_string(&self.entries[i].0);
            assert(self@[i as int].0 == self.entries@[i as int].0@);
            if eq_chars(&ek, k) {
                return Some(i);
            }
            i += 1;
        }
        None
    }

    /// Insert or replace the mount point of a device.
    pub fn insert(&mut self, k: &str, v: &str)
        ensures
            final(self)@ == assoc_insert(old(self)@, k@, v@),
    {
        let kv = chars_of(k);
        let ks = string_of(&kv);
        let vs = string_of(&chars_of(v));
        match self.index_of(&kv) {
            Some(i) => {
                self.entries.set(i, (ks, vs));
                assert(self@ =~= assoc_insert(old(self)@, k@, v@));
            },
            None => {
                self.entries.push((ks, vs));
                assert(self@ =~= assoc_insert(old(self)@, k@, v@));
            },
        }
    }

    /// The mount point stored for a device name.
    pub fn get(&self, k: &str) -> (r: Option<String>)
        ensures
            match r {
                Some(v) => lookup(self@, k@) == Some(v@),
                None => lookup(self@, k@) is None,
            },
    {
        let kv = chars_of(k);
        match self.index_of(&kv) {
            Some(i) => {
                proof {
                    lemma_key_index_from(self@, k@, 0);
                }
                assert(self@[i as int].1 == self.entries@[i as int].1@);
                Some(self.entries[i].1.clone())
            },
            None => None,
        }
    }

    /// The number of devices in the table.
    pub fn len(&self) -> (r: usize)
        ensures
            r == self@.len(),
    {
        self.entries.len()
    }
}

/// The device and mount point of one line of `/proc/mounts`, when its first
/// field is a `/dev/` path with a file name and it has a second field.
pub open spec fn mount_entry(line: Seq<char>) -> Option<(Seq<char>, Seq<char>)> {
    let w = words(line);
    if w.len() >= 2 && starts_with(w[0], "/dev/"@) && path_file_name(w[0]) is Some {
        Some((path_file_name(w[0])->0, w[1]))
    } else {
        None
    }
}

/// The table built from a sequence of lines, later lines overriding
/// earlier ones for the same device.
pub open spec fn mounts_of_lines(ls: Seq<Seq<char>>) -> MountModel
    decreases ls.len(),
{
    if ls.len() == 0 {
        seq![]
    } else {
        let t = mounts_of_lines(ls.drop_last());
        match mount_entry(ls.last()) {
            Some(e) => assoc_insert(t, e.0, e.1),
            None => t,
        }
    }
}

/// Parse the contents of `/proc/mounts` into a map of bare device name to
/// mount point.
pub fn parse_proc_mounts(content: &str) -> (r: MountTable)
    ensures
        r@ == mounts_of_lines(lines(content@)),
        r.wf(),
{
    let text = chars_of(content);
    let ls = lines_exec(&text);
    let mut t = MountTable::new();
    let mut i: usize = 0;
    while i < ls.len()
        invariant
            i <= ls.len(),
            views(ls@) == lines(content@),
            t@ == mounts_of_lines(views(ls@).take(i as int)),
            t.wf(),
        decreases ls.len() - i,
    {
        let ghost before = views(ls@).take(i as int);
        assert(views(ls@).take(i + 1).drop_last() =~= before);
        assert(views(ls@).take(i + 1).last() == ls@[i as int]@);
        let w = split_ws(&ls[i]);
        if w.len() >= 2 {
            assert(views(w@)[0] == w@[0]@);
            assert(views(w@)[1] == w@[1]@);
            let dev = string_of(&w[0]);
            if has_prefix(&w[0], "/dev/") {
                match file_name(dev.as_str()) {
                    Some(n) => {
                        let m = string_of(&w[1]);
                        proof {
                            law_get_after_insert(t@, n@, m@);
                        }
                        t.insert(n.as_str(), m.as_str());
                    },
                    None => {},
                }
            }
        }
        i += 1;
    }
    assert(views(ls@).take(ls.len() as int) =~= views(ls@));
    t
}

/// `k` names a partition of device `dev`: it extends `dev` by a digit or a
/// `p`.
pub open spec fn is_partition_name(k: Seq<char>, dev: Seq<char>) -> bool {
    starts_with(k, dev) && k.len() > dev.len() && (is_digit(k[dev.len() as int]) || k[dev.len() as int]
        == 'p')
}

/// The mount point of the first partition of `dev` in the table, from
/// index `i` on.
pub open spec fn first_partition_mount(t: MountModel, dev: Seq<char>, i: int) -> Option<Seq<char>>
    decreases t.len() - i,
{
    if i < 0 || i >= t.len() {
        None
    } else if is_partition_name(t[i].0, dev) {
        Some(t[i].1)
    } else {
        first_partition_mount(t, dev, i + 1)
    }
}

/// Where a device is mounted: its own entry, else that of one of its
/// partitions.
pub open spec fn mount_point_of(t: MountModel, dev: Seq<char>) -> Option<Seq<char>> {
    match lookup(t, dev) {
        Some(v) => Some(v),
        None => first_partition_mount(t, dev, 0),
    }
}

fn is_partition_name_exec(k: &Vec<char>, dev: &Vec<char>) -> (r: bool)
    ensures
        r == is_partition_name(k@, dev@),
{
    starts_with_exec(k, dev) && k.len() > dev.len() && (('0' <= k[dev.len()] && k[dev.len()]
        <= '9') || k[dev.len()] == 'p')
}

/// Find the mount point for `dev_name` or any of its partitions.
pub fn find_mount_point(dev_name: &str, mounts: &MountTable) -> (r: Option<String>)
    ensures
        match r {
            Some(v) => mount_point_of(mounts@, dev_name@) == Some(v@),
            None => mount_point_of(mounts@, dev_name@) is None,
        },
{
    let got = mounts.get(dev_name);
    if got.is_some() {
        return got;
    }
    assert(lookup(mounts@, dev_name@) is None);
    let dev = chars_of(dev_name);
    let mut i: usize = 0;
    while i < mounts.entries.len()
        invariant
            i <= mounts.entries.len(),
            mounts@.len() == mounts.entries.len(),
            dev@ == dev_name@,
            lookup(mounts@, dev_name@) is None,
            first_partition_mount(mounts@, dev_name@, 0) == first_partition_mount(
                mounts@,
                dev_name@,
                i as int,
            ),
        decreases mounts.entries.len() - i,
    {
        let k = chars_of_string(&mounts.entries[i].0);
        assert(mounts@[i as int].0 == mounts.entries@[i as int].0@);
        assert(mounts@[i as int].1 == mounts.entries@[i as int].1@);
        if is_partition_name_exec(&k, &dev) {
            assert(first_partition_mount(mounts@, dev_name@, i as int) == Some(mounts@[i as int].1));
            let found = mounts.entries[i].1.clone();
            assert(found@ == mounts@[i as int].1);
            return Some(found);
        }
        i += 1;
    }
    None
}

// ---------------------------------------------------------------------------
// sysfs
// ---------------------------------------------------------------------------

/// The value of a single-line sysfs attribute: its trimmed text read as a
/// decimal `u64`.
pub open spec fn sysfs_value(content: Seq<char>) -> Option<u64> {
    parse_u64(trim(content))
}

/// Reads a sysfs attribute's text as a number (see `sysfs_value`).
pub fn read_sysfs_value(content: &str) -> (r: Option<u64>)
    ensures
        r == sysfs_value(content@),
{
    parse_u64_exec(&trim_exec(&chars_of(content)))
}

/// The first of `path` and its ancestors that is one of the USB device
/// paths, walking up until `/sys/devices` or `/sys`.  Paths are compared as
/// text; both sides are canonical sysfs paths.
pub open spec fn usb_ancestor(path: Seq<char>, usb: Seq<Seq<char>>) -> Option<Seq<char>>
    decreases path.len(),
{
    if usb.contains(path) {
        Some(path)
    } else if path == "/sys/devices"@ || path == "/sys"@ {
        None
    } else {
        match path_parent(path) {
            Some(p) => if p.len() < path.len() {
                usb_ancestor(p, usb)
            } else {
                None
            },
            None => None,
        }
    }
}

/// The first index at which `p` occurs in `s`.
pub open spec fn first_index(s: Seq<Seq<char>>, p: Seq<char>) -> Option<int>
    decreases s.len(),
{
    if s.len() == 0 {
        None
    } else if s[0] == p {
        Some(0)
    } else {
        match first_index(s.drop_first(), p) {
            Some(i) => Some(i + 1),
            None => None,
        }
    }
}

proof fn lemma_first_index_at(s: Seq<Seq<char>>, p: Seq<char>, j: int)
    requires
        0 <= j <= s.len(),
        forall|i: int| 0 <= i < j ==> #[trigger] s[i] != p,
        j < s.len() ==> s[j] == p,
    ensures
        first_index(s, p) == (if j < s.len() { Some(j) } else { None::<int> }),
    decreases j,
{
    if j > 0 {
        let u = s.drop_first();
        assert forall|i: int| 0 <= i < j - 1 implies #[trigger] u[i] != p by {
            assert(u[i] == s[i + 1]);
        }
        if j < s.len() {
            assert(u[j - 1] == s[j]);
        }
        assert(s[0] != p);
        lemma_first_index_at(u, p, j - 1);
    }
}

proof fn lemma_first_index_bound(s: Seq<Seq<char>>, p: Seq<char>)
    ensures
        first_index(s, p) matches Some(i) ==> 0 <= i < s.len(),
    decreases s.len(),
{
    if s.len() > 0 {
        lemma_first_index_bound(s.drop_first(), p);
    }
}

/// The index of the first USB device path equal to `p`.
fn index_of_path(usb_paths: &Vec<String>, p: &Vec<char>) -> (r: Option<usize>)
    ensures
        match r {
            Some(i) => i < usb_paths@.len() && usb_paths@[i as int]@ == p@ && first_index(
                crate::file_explorer::texts_view(usb_paths@),
                p@,
            ) == Some(i as int),
            None => !crate::file_explorer::texts_view(usb_paths@).contains(p@),
        },
{
    let ghost tv = crate::file_explorer::texts_view(usb_paths@);
    let mut i: usize = 0;
    while i < usb_paths.len()
        invariant
            i <= usb_paths.len(),
            tv == crate::file_explorer::texts_view(usb_paths@),
            forall|j: int| 0 <= j < i ==> #[trigger] tv[j] != p@,
        decreases usb_paths.len() - i,
    {
        assert(tv[i as int] == usb_paths@[i as int]@);
        if eq_chars(&chars_of_string(&usb_paths[i]), p) {
            proof {
                lemma_first_index_at(tv, p@, i as int);
            }
            return Some(i);
        }
        i += 1;
    }
    None
}

/// The USB device a block device belongs to: the index of the first USB
/// device path met walking up from the block device's canonical sysfs path
/// (see `usb_ancestor`).
pub fn find_usb_ancestor(path: &str, usb_paths: &Vec<String>) -> (r: Option<usize>)
    ensures
        match r {
            Some(i) => i < usb_paths@.len() && usb_ancestor(path@, crate::file_explorer::texts_view(usb_paths@))
                == Some(usb_paths@[i as int]@) && first_index(
                crate::file_explorer::texts_view(usb_paths@),
                usb_paths@[i as int]@,
            ) == Some(i as int),
            None => usb_ancestor(path@, crate::file_explorer::texts_view(usb_paths@)) is None,
        },
{
    let ghost tv = crate::file_explorer::texts_view(usb_paths@);
    let ghost target = usb_ancestor(path@, tv);
    let mut current = string_of(&chars_of(path));
    let sys_devices = chars_of("/sys/devices");
    let sys = chars_of("/sys");
    loop
        invariant
            tv == crate::file_explorer::texts_view(usb_paths@),
            target == usb_ancestor(path@, tv),
            usb_ancestor(current@, tv) == target,
            sys_devices@ == "/sys/devices"@,
            sys@ == "/sys"@,
        decreases current@.len(),
    {
        let cv = chars_of_string(&current);
        match index_of_path(usb_paths, &cv) {
            Some(i) => {
                assert(tv[i as int] == usb_paths@[i as int]@);
                return Some(i);
            },
            None => {},
        }
        if eq_chars(&cv, &sys_devices) || eq_chars(&cv, &sys) {
            return None;
        }
        match parent(current.as_str()) {
            Some(p) => {
                current = p;
            },
            None => {
                return None;
            },
        }
    }
}

// ---------------------------------------------------------------------------
// The USB drive list
// ---------------------------------------------------------------------------

/// What `/sys/block` shows of one device: its name, its canonical sysfs
/// path (when the link resolves), and the raw contents of its `size` and
/// `ro` attributes (when readable).
pub struct SysBlock {
    pub name: String,
    pub canonical: Option<String>,
    pub size: Option<String>,
    pub ro: Option<String>,
}

pub struct SysBlockModel {
    pub name: Seq<char>,
    pub canonical: Option<Seq<char>>,
    pub size: Option<Seq<char>>,
    pub ro: Option<Seq<char>>,
}

pub open spec fn text_opt(o: Option<String>) -> Option<Seq<char>> {
    match o {
        Some(s) => Some(s@),
        None => None,
    }
}

impl View for SysBlock {
    type V = SysBlockModel;

    open spec fn view(&self) -> SysBlockModel {
        SysBlockModel {
            name: self.name@,
            canonical: text_opt(self.canonical),
            size: text_opt(self.size),
            ro: text_opt(self.ro),
        }
    }
}

pub open spec fn sys_blocks_view(s: Seq<SysBlock>) -> Seq<SysBlockModel> {
    s.map_values(|b: SysBlock| b@)
}

/// An attribute's number, when it was read and is a number.
pub open spec fn attribute_value(raw: Option<Seq<char>>) -> Option<u64> {
    match raw {
        Some(s) => sysfs_value(s),
        None => None,
    }
}

/// The size in sectors; an unreadable size counts as zero.
pub open spec fn block_sectors(b: SysBlockModel) -> u64 {
    match attribute_value(b.size) {
        Some(n) => n,
        None => 0,
    }
}

/// The device is read-only when `ro` reads as a non-zero number.
pub open spec fn block_read_only(b: SysBlockModel) -> bool {
    match attribute_value(b.ro) {
        Some(v) => v != 0,
        None => false,
    }
}

/// The drive for a block device: only for a device whose name is not
/// skipped, whose sysfs path lies below one of the USB devices, and whose
/// size is not zero.  It is named after that USB device (the first listed
/// with that path), shown where it or a partition is mounted (else at its
/// device node), and never a system drive.
pub open spec fn usb_drive_of(
    b: SysBlockModel,
    usb: Seq<Seq<char>>,
    infos: Seq<UsbInfo>,
    mounts: MountModel,
) -> Option<DriveModel> {
    if skipped_name(b.name) {
        None
    } else {
        match b.canonical {
            None => None,
            Some(c) => match usb_ancestor(c, usb) {
                None => None,
                Some(a) => match first_index(usb, a) {
                    None => None,
                    Some(i) => if block_sectors(b) == 0 {
                        None
                    } else {
                        Some(
                            DriveModel {
                                name: display_name(infos[i].label(), b.name),
                                device_path: "/dev/"@ + b.name,
                                mount_point: match mount_point_of(mounts, b.name) {
                                    Some(m) => m,
                                    None => "/dev/"@ + b.name,
                                },
                                size_bytes: (block_sectors(b) * 512) as u64,
                                is_system: false,
                                is_read_only: block_read_only(b),
                                usb_info: Some(infos[i]@),
                            },
                        )
                    },
                },
            },
        }
    }
}

fn attribute_exec(raw: &Option<String>) -> (r: Option<u64>)
    ensures
        r == attribute_value(text_opt(*raw)),
{
    match raw {
        Some(s) => read_sysfs_value(s.as_str()),
        None => None,
    }
}

/// The drive for one block device (see `usb_drive_of`).
pub fn usb_drive(b: &SysBlock, usb_paths: &Vec<String>, infos: &Vec<UsbInfo>, mounts: &MountTable) -> (r: Option<
    DriveInfo,
>)
    requires
        usb_paths.len() == infos.len(),
        block_sectors(b@) * 512 <= u64::MAX,
    ensures
        match r {
            Some(d) => usb_drive_of(b@, crate::file_explorer::texts_view(usb_paths@), infos@, mounts@) == Some(d@),
            None => usb_drive_of(b@, crate::file_explorer::texts_view(usb_paths@), infos@, mounts@) is None,
        },
{
    if should_skip_device(b.name.as_str()) {
        return None;
    }
    let canonical = match &b.canonical {
        Some(c) => c,
        None => {
            return None;
        },
    };
    let i = match find_usb_ancestor(canonical.as_str(), usb_paths) {
        Some(i) => i,
        None => {
            return None;
        },
    };
    let sectors = match attribute_exec(&b.size) {
        Some(n) => n,
        None => 0,
    };
    if sectors == 0 {
        return None;
    }
    let read_only = match attribute_exec(&b.ro) {
        Some(v) => v != 0,
        None => false,
    };
    let mut path = chars_of("/dev/");
    let dev = chars_of_string(&b.name);
    let mut k: usize = 0;
    while k < dev.len()
        invariant
            k <= dev.len(),
            path@ == "/dev/"@ + dev@.take(k as int),
        decreases dev.len() - k,
    {
        path.push(dev[k]);
        assert(dev@.take(k as int + 1) =~= dev@.take(k as int).push(dev@[k as int]));
        k += 1;
    }
    assert(dev@.take(dev.len() as int) =~= dev@);
    let device_path = string_of(&path);
    let mount_point = match find_mount_point(b.name.as_str(), mounts) {
        Some(m) => m,
        None => device_path.clone(),
    };
    Some(
        DriveInfo {
            name: build_display_name(&infos[i], b.name.as_str()),
            device_path,
            mount_point,
            size_bytes: sectors * 512,
            is_system: false,
            is_read_only: read_only,
            usb_info: Some(infos[i].clone()),
        },
    )
}

/// The drives of the block devices, in the order given.
pub open spec fn usb_drive_list(
    blocks: Seq<SysBlockModel>,
    usb: Seq<Seq<char>>,
    infos: Seq<UsbInfo>,
    mounts: MountModel,
) -> Seq<DriveModel>
    decreases blocks.len(),
{
    if blocks.len() == 0 {
        Seq::empty()
    } else {
        let rest = usb_drive_list(blocks.drop_last(), usb, infos, mounts);
        match usb_drive_of(blocks.last(), usb, infos, mounts) {
            Some(d) => rest.push(d),
            None => rest,
        }
    }
}

/// The removable USB drives among the block devices, sorted by device path
/// (see `usb_drive_of` and `sort_by_path`).
pub fn usb_drives(blocks: &Vec<SysBlock>, usb_paths: &Vec<String>, infos: &Vec<UsbInfo>, mounts: &MountTable) -> (r:
    Vec<DriveInfo>)
    requires
        usb_paths.len() == infos.len(),
        forall|i: int| 0 <= i < blocks.len() ==> block_sectors(#[trigger] blocks@[i]@) * 512 <= u64::MAX,
    ensures
        drives_view(r@) == sort_by_path(
            usb_drive_list(sys_blocks_view(blocks@), crate::file_explorer::texts_view(usb_paths@), infos@, mounts@),
        ),
{
    let ghost bv = sys_blocks_view(blocks@);
    let ghost uv = crate::file_explorer::texts_view(usb_paths@);
    let mut found: Vec<DriveInfo> = Vec::new();
    let mut i: usize = 0;
    assert(bv.take(0) =~= Seq::<SysBlockModel>::empty());
    assert(drives_view(found@) =~= Seq::<DriveModel>::empty());
    while i < blocks.len()
        invariant
            i <= blocks.len(),
            bv == sys_blocks_view(blocks@),
            uv == crate::file_explorer::texts_view(usb_paths@),
            usb_paths.len() == infos.len(),
            forall|j: int| 0 <= j < blocks.len() ==> block_sectors(#[trigger] blocks@[j]@) * 512 <= u64::MAX,
            drives_view(found@) == usb_drive_list(bv.take(i as int), uv, infos@, mounts@),
        decreases blocks.len() - i,
    {
        assert(bv.take(i as int + 1).drop_last() =~= bv.take(i as int));
        assert(bv.take(i as int + 1).last() == blocks@[i as int]@);
        let ghost before = drives_view(found@);
        match usb_drive(&blocks[i], usb_paths, infos, mounts) {
            Some(d) => {
                found.push(d);
                assert(drives_view(found@) =~= before.push(found@[found.len() - 1]@));
            },
            None => {},
        }
        i += 1;
    }
    assert(bv.take(blocks.len() as int) =~= bv);
    order_drives(found)
}

/// Every drive of the list carries the data of a USB device, has a size,
/// and is neither a system drive nor one of the skipped kinds: its node is
/// `/dev/` and a name that is not skipped.
pub proof fn law_usb_list_offers_only_usb_devices(
    blocks: Seq<SysBlockModel>,
    usb: Seq<Seq<char>>,
    infos: Seq<UsbInfo>,
    mounts: MountModel,
)
    requires
        usb.len() == infos.len(),
        forall|i: int| 0 <= i < blocks.len() ==> block_sectors(#[trigger] blocks[i]) * 512 <= u64::MAX,
    ensures
        forall|i: int|
            0 <= i < usb_drive_list(blocks, usb, infos, mounts).len() ==> {
                let d = #[trigger] usb_drive_list(blocks, usb, infos, mounts)[i];
                &&& !d.is_system
                &&& d.size_bytes > 0
                &&& d.usb_info is Some
                &&& (exists|k: int| 0 <= k < infos.len() && d.usb_info == Some(#[trigger] infos[k]@))
                &&& d.device_path.len() >= 5
                &&& d.device_path.take(5) == "/dev/"@
                &&& !skipped_name(d.device_path.skip(5))
            },
    decreases blocks.len(),
{
    if blocks.len() > 0 {
        let u = blocks.drop_last();
        law_usb_list_offers_only_usb_devices(u, usb, infos, mounts);
        let rest = usb_drive_list(u, usb, infos, mounts);
        assert forall|i: int| 0 <= i < usb_drive_list(blocks, usb, infos, mounts).len() implies {
            let d = #[trigger] usb_drive_list(blocks, usb, infos, mounts)[i];
            &&& !d.is_system
            &&& d.size_bytes > 0
            &&& d.usb_info is Some
            &&& (exists|k: int| 0 <= k < infos.len() && d.usb_info == Some(#[trigger] infos[k]@))
            &&& d.device_path.len() >= 5
            &&& d.device_path.take(5) == "/dev/"@
            &&& !skipped_name(d.device_path.skip(5))
        } by {
            if i < rest.len() {
                assert(usb_drive_list(blocks, usb, infos, mounts)[i] == rest[i]);
            } else {
                let b = blocks.last();
                assert(b == blocks[blocks.len() - 1]);
                assert(block_sectors(b) * 512 <= u64::MAX);
                assert(usb_drive_of(b, usb, infos, mounts) is Some);
                let a = usb_ancestor(b.canonical->Some_0, usb)->Some_0;
                lemma_first_index_bound(usb, a);
                let k = first_index(usb, a)->Some_0;
                assert(usb_drive_of(b, usb, infos, mounts)->Some_0.usb_info == Some(infos[k]@));
                let d = usb_drive_of(b, usb, infos, mounts)->Some_0;
                assert(usb_drive_list(blocks, usb, infos, mounts)[i] == d);
                reveal_strlit("/dev/");
                assert(d.device_path.take(5) =~= "/dev/"@);
                assert(d.device_path.skip(5) =~= b.name);
            }
        }
    }
}

/// What sysfs reports of a block device is carried into its drive: a
/// drive is offered only for a device whose name is not skipped, that lies
/// below a USB device, and whose size is not zero; it is then written
/// through `/dev/<name>`, has its size in 512-byte sectors times 512, is
/// flagged read-only exactly when its `ro` attribute reads as a non-zero
/// number, is never a system drive, and carries USB data.
pub proof fn law_usb_drive_keeps_block_facts(
    b: SysBlockModel,
    usb: Seq<Seq<char>>,
    infos: Seq<UsbInfo>,
    mounts: MountModel,
)
    ensures
        usb_drive_of(b, usb, infos, mounts) is Some ==> !skipped_name(b.name) && b.canonical is Some
            && usb_ancestor(b.canonical->0, usb) is Some && (b.size matches Some(s) && sysfs_value(s) matches Some(
            n,
        ) && n > 0),
        match usb_drive_of(b, usb, infos, mounts) {
            Some(x) => {
                &&& x.device_path == "/dev/"@ + b.name
                &&& x.is_read_only == (b.ro matches Some(r) && sysfs_value(r) matches Some(v) && v != 0)
                &&& !x.is_system
                &&& x.size_bytes == (sysfs_value(b.size->0)->0 * 512) as u64
                &&& x.usb_info is Some
            },
            None => true,
        },
{
}

} // verus!
