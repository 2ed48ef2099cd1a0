//! A keyboard-driven file browser.
//!
//! The browser works on directory listings handed to it: which entries are
//! shown, in which order, where the cursor stands, what a key press does and
//! which file is finally chosen are decided here.  Reading a directory is the
//! caller's part: after a key press that changes or refreshes the directory,
//! `awaiting` is set, and the caller lists `current_dir` and hands the listing
//! to [`FileExplorer::reload`].
use vstd::prelude::*;
use crate::external::{is_ascii_text, lowercase_of, to_lowercase, parent, path_parent};
use crate::keys::{Key, KeyPress};
use crate::text::{
    decimal, decimal_exec, digit_char, char_from_ascii, chars_of, chars_of_string, string_of, eq_ignore_ascii_case,
    eq_ascii_nocase, eq_chars, push_all, slice_chars, utf8_len, utf8_len_exec, char_at_byte, char_index_at_byte,
};

verus! {

// ---------------------------------------------------------------------------
// Listings and entries
// ---------------------------------------------------------------------------

/// One entry of a directory as the file system lists it.
pub struct DirItem {
    /// The entry's file name.
    pub name: String,
    /// The entry's full path.
    pub path: String,
    /// The entry is a directory.
    pub is_dir: bool,
    /// The size in bytes, when it could be read.
    pub size: Option<u64>,
}

/// A listed directory entry as plain values.
pub struct DirItemModel {
    pub name: Seq<char>,
    pub path: Seq<char>,
    pub is_dir: bool,
    pub size: Option<u64>,
}

impl View for DirItem {
    type V = DirItemModel;

    open spec fn view(&self) -> DirItemModel {
        DirItemModel { name: self.name@, path: self.path@, is_dir: self.is_dir, size: self.size }
    }
}

/// A single entry shown in the browser list.
#[derive(Debug, PartialEq, Eq)]
pub struct FsEntry {
    /// Display name (file name only).
    pub name: String,
    /// Full path of the entry.
    pub path: String,
    /// The entry is a directory.
    pub is_dir: bool,
    /// File size in bytes (`None` for directories or when unavailable).
    pub size: Option<u64>,
    /// File extension in lower case (empty for directories and files without one).
    pub extension: String,
}

/// A browser entry as plain values.
pub struct EntryModel {
    pub name: Seq<char>,
    pub path: Seq<char>,
    pub is_dir: bool,
    pub size: Option<u64>,
    pub extension: Seq<char>,
}

impl View for FsEntry {
    type V = EntryModel;

    open spec fn view(&self) -> EntryModel {
        EntryModel {
            name: self.name@,
            path: self.path@,
            is_dir: self.is_dir,
            size: self.size,
            extension: self.extension@,
        }
    }
}

/// The entries of a list as plain values.
pub open spec fn entries_view(s: Seq<FsEntry>) -> Seq<EntryModel> {
    s.map_values(|e: FsEntry| e@)
}

/// The items of a listing as plain values.
pub open spec fn items_view(s: Seq<DirItem>) -> Seq<DirItemModel> {
    s.map_values(|d: DirItem| d@)
}

/// The texts of a list of strings.
pub open spec fn texts_view(s: Seq<String>) -> Seq<Seq<char>> {
    s.map_values(|t: String| t@)
}

impl Clone for FsEntry {
    fn clone(&self) -> (r: FsEntry)
        ensures
            r@ == self@,
    {
        FsEntry {
            name: self.name.clone(),
            path: self.path.clone(),
            is_dir: self.is_dir,
            size: self.size,
            extension: self.extension.clone(),
        }
    }
}

// ---------------------------------------------------------------------------
// Which entries are listed
// ---------------------------------------------------------------------------

/// Dot-files are hidden unless asked for.
pub open spec fn is_hidden(name: Seq<char>) -> bool {
    name.len() > 0 && name[0] == '.'
}

/// The index of the last `.` of a name.
pub open spec fn last_dot(n: Seq<char>) -> Option<int>
    decreases n.len(),
{
    if n.len() == 0 {
        None
    } else if n.last() == '.' {
        Some(n.len() - 1)
    } else {
        last_dot(n.drop_last())
    }
}

/// `Path::extension` of a file name: the text after the last dot, unless the
/// name is `..`, has no dot, or its only leading part before the dot is empty.
///
/// This is the whole of what std documents of `Path::extension` on a single
/// file name (no separator), short enough to state here; the code below
/// computes it and is proved against this statement, where `file_name` and
/// `parent`, whose rules reach further, are called through std.
pub open spec fn name_extension(n: Seq<char>) -> Option<Seq<char>> {
    if n =~= seq!['.', '.'] {
        None
    } else {
        match last_dot(n) {
            None => None,
            Some(i) => if i == 0 {
                None
            } else {
                Some(n.subrange(i + 1, n.len() as int))
            },
        }
    }
}

/// The lower-case extension recorded for a listed item.
pub open spec fn item_extension(d: DirItemModel) -> Seq<char> {
    if d.is_dir {
        Seq::empty()
    } else {
        match name_extension(d.name) {
            Some(e) => lowercase_of(e),
            None => Seq::empty(),
        }
    }
}

/// Some extension of the filter matches `ext`, ignoring ASCII case.
pub open spec fn filter_matches(filter: Seq<Seq<char>>, ext: Seq<char>) -> bool {
    exists|i: int| 0 <= i < filter.len() && eq_ignore_ascii_case(#[trigger] filter[i], ext)
}

/// An item is listed when it is visible and, for a file, passes the filter
/// (an empty filter passes every file; directories are always listed).
pub open spec fn is_listed(d: DirItemModel, show_hidden: bool, filter: Seq<Seq<char>>) -> bool {
    &&& show_hidden || !is_hidden(d.name)
    &&& d.is_dir || filter.len() == 0 || filter_matches(filter, item_extension(d))
}

/// The browser entry made from a listed item.
pub open spec fn entry_of(d: DirItemModel) -> EntryModel {
    EntryModel {
        name: d.name,
        path: d.path,
        is_dir: d.is_dir,
        size: if d.is_dir {
            None
        } else {
            d.size
        },
        extension: item_extension(d),
    }
}

/// The listed directories (`dirs`) or files (`!dirs`), in listing order.
pub open spec fn group(items: Seq<DirItemModel>, show_hidden: bool, filter: Seq<Seq<char>>, dirs: bool) -> Seq<EntryModel>
    decreases items.len(),
{
    if items.len() == 0 {
        Seq::empty()
    } else {
        let rest = group(items.drop_last(), show_hidden, filter, dirs);
        let d = items.last();
        if is_listed(d, show_hidden, filter) && d.is_dir == dirs {
            rest.push(entry_of(d))
        } else {
            rest
        }
    }
}

// ---------------------------------------------------------------------------
// Order
// ---------------------------------------------------------------------------

/// `a` comes strictly before `b` in the order of `str` comparison.
pub open spec fn lex_lt(a: Seq<char>, b: Seq<char>) -> bool
    decreases a.len(),
{
    if b.len() == 0 {
        false
    } else if a.len() == 0 {
        true
    } else if a[0] != b[0] {
        (a[0] as u32) < (b[0] as u32)
    } else {
        lex_lt(a.drop_first(), b.drop_first())
    }
}

/// The key entries are sorted by: the lower-cased name.
pub open spec fn name_key(e: EntryModel) -> Seq<char> {
    lowercase_of(e.name)
}

/// The place where an entry with key `k` goes into a sorted list, after every
/// entry whose key is not greater.
pub open spec fn first_after(s: Seq<EntryModel>, k: Seq<char>) -> int
    decreases s.len(),
{
    if s.len() == 0 {
        0
    } else if lex_lt(k, name_key(s[0])) {
        0
    } else {
        1 + first_after(s.drop_first(), k)
    }
}

/// The stable sort by lower-cased name (each entry goes after the entries
/// before it whose key is not greater).
pub open spec fn sort_by_name(s: Seq<EntryModel>) -> Seq<EntryModel>
    decreases s.len(),
{
    if s.len() == 0 {
        s
    } else {
        let sorted = sort_by_name(s.drop_last());
        sorted.insert(first_after(sorted, name_key(s.last())), s.last())
    }
}

/// The browser list for a directory listing: the listed directories, then the
/// listed files, each group sorted by lower-cased name.
pub open spec fn load_entries(items: Seq<DirItemModel>, show_hidden: bool, filter: Seq<Seq<char>>) -> Seq<EntryModel> {
    sort_by_name(group(items, show_hidden, filter, true)) + sort_by_name(group(items, show_hidden, filter, false))
}

proof fn lemma_first_after_at(s: Seq<EntryModel>, k: Seq<char>, j: int)
    requires
        0 <= j <= s.len(),
        forall|i: int| 0 <= i < j ==> !lex_lt(k, #[trigger] name_key(s[i])),
        j == s.len() || lex_lt(k, name_key(s[j])),
    ensures
        first_after(s, k) == j,
    decreases j,
{
    if j > 0 {
        assert(!lex_lt(k, name_key(s[0])));
        let t = s.drop_first();
        assert forall|i: int| 0 <= i < j - 1 implies !lex_lt(k, #[trigger] name_key(t[i])) by {
            assert(t[i] == s[i + 1]);
        }
        if j < s.len() {
            assert(t[j - 1] == s[j]);
        }
        lemma_first_after_at(t, k, j - 1);
    } else if s.len() > 0 {
        assert(lex_lt(k, name_key(s[0])));
    }
}

// ---------------------------------------------------------------------------
// Executable helpers
// ---------------------------------------------------------------------------

/// `lex_lt` on character vectors.
pub(crate) fn lex_less(a: &Vec<char>, b: &Vec<char>) -> (r: bool)
    ensures
        r == lex_lt(a@, b@),
{
    let mut i: usize = 0;
    assert(a@.skip(0) =~= a@ && b@.skip(0) =~= b@);
    while i < a.len() && i < b.len()
        invariant
            i <= a.len(),
            i <= b.len(),
            a@.take(i as int) =~= b@.take(i as int),
            lex_lt(a@, b@) == lex_lt(a@.skip(i as int), b@.skip(i as int)),
        decreases a.len() - i,
    {
        if a[i] != b[i] {
            assert(a@.skip(i as int)[0] == a@[i as int]);
            assert(b@.skip(i as int)[0] == b@[i as int]);
            return (a[i] as u32) < (b[i] as u32);
        }
        assert(a@.skip(i as int).drop_first() =~= a@.skip(i as int + 1));
        assert(b@.skip(i as int).drop_first() =~= b@.skip(i as int + 1));
        assert(a@.take(i as int + 1) =~= a@.take(i as int).push(a@[i as int]));
        assert(b@.take(i as int + 1) =~= b@.take(i as int).push(b@[i as int]));
        i += 1;
    }
    i < b.len()
}

/// The index of the last `.` in `n`.
fn last_dot_exec(n: &Vec<char>) -> (r: Option<usize>)
    ensures
        match r {
            Some(i) => last_dot(n@) == Some(i as int),
            None => last_dot(n@) is None,
        },
{
    let mut j: usize = n.len();
    assert(n@.take(j as int) =~= n@);
    while j > 0
        invariant
            j <= n.len(),
            last_dot(n@) == last_dot(n@.take(j as int)),
        decreases j,
    {
        assert(n@.take(j as int).drop_last() =~= n@.take(j as int - 1));
        if n[j - 1] == '.' {
            return Some(j - 1);
        }
        j -= 1;
    }
    assert(n@.take(0) =~= Seq::<char>::empty());
    None
}

/// `Path::extension` of a file name.
pub fn extension_of_name(n: &Vec<char>) -> (r: Option<Vec<char>>)
    ensures
        match r {
            Some(e) => name_extension(n@) == Some(e@),
            None => name_extension(n@) is None,
        },
{
    if n.len() == 2 && n[0] == '.' && n[1] == '.' {
        assert(n@ =~= seq!['.', '.']);
        return None;
    }
    assert(!(n@ =~= seq!['.', '.']));
    match last_dot_exec(n) {
        None => None,
        Some(i) => {
            if i == 0 {
                None
            } else {
                proof {
                    lemma_last_dot_bound(n@);
                }
                let mut e: Vec<char> = Vec::new();
                let mut k: usize = i + 1;
                while k < n.len()
                    invariant
                        i + 1 <= k <= n.len(),
                        e@ =~= n@.subrange(i + 1, k as int),
                    decreases n.len() - k,
                {
                    e.push(n[k]);
                    k += 1;
                }
                Some(e)
            }
        },
    }
}

proof fn lemma_last_dot_bound(n: Seq<char>)
    ensures
        match last_dot(n) {
            Some(i) => 0 <= i < n.len() && n[i] == '.',
            None => true,
        },
    decreases n.len(),
{
    if n.len() > 0 && n.last() != '.' {
        lemma_last_dot_bound(n.drop_last());
    }
}

/// The texts of the extension filter as character vectors.
fn filter_chars(filter: &Vec<String>) -> (r: Vec<Vec<char>>)
    ensures
        r@.len() == filter@.len(),
        forall|i: int| 0 <= i < r@.len() ==> #[trigger] r@[i]@ == filter@[i]@,
{
    let mut r: Vec<Vec<char>> = Vec::new();
    let mut i: usize = 0;
    while i < filter.len()
        invariant
            i <= filter.len(),
            r@.len() == i,
            forall|j: int| 0 <= j < i ==> #[trigger] r@[j]@ == filter@[j]@,
        decreases filter.len() - i,
    {
        r.push(chars_of_string(&filter[i]));
        i += 1;
    }
    r
}

/// Some extension of the filter equals `ext`, ignoring ASCII case.
fn filter_matches_exec(filter: &Vec<Vec<char>>, ext: &Vec<char>) -> (r: bool)
    ensures
        r == filter_matches(filter@.map_values(|v: Vec<char>| v@), ext@),
{
    let ghost fv = filter@.map_values(|v: Vec<char>| v@);
    let mut i: usize = 0;
    while i < filter.len()
        invariant
            i <= filter.len(),
            fv == filter@.map_values(|v: Vec<char>| v@),
            forall|j: int| 0 <= j < i ==> !eq_ignore_ascii_case(#[trigger] fv[j], ext@),
        decreases filter.len() - i,
    {
        if eq_ascii_nocase(&filter[i], ext) {
            assert(fv[i as int] == filter@[i as int]@);
            return true;
        }
        assert(fv[i as int] == filter@[i as int]@);
        i += 1;
    }
    false
}

/// The browser entry for a listed item.
fn entry_from_item(d: &DirItem) -> (e: FsEntry)
    ensures
        e@ == entry_of(d@),
{
    let extension = if d.is_dir {
        String::new()
    } else {
        let name = chars_of_string(&d.name);
        match extension_of_name(&name) {
            Some(ext) => {
                let text = string_of(&ext);
                to_lowercase(text.as_str())
            },
            None => String::new(),
        }
    };
    FsEntry {
        name: d.name.clone(),
        path: d.path.clone(),
        is_dir: d.is_dir,
        size: if d.is_dir {
            None
        } else {
            d.size
        },
        extension,
    }
}

/// Whether an item is listed (see `is_listed`).
fn item_is_listed(d: &DirItem, e: &FsEntry, show_hidden: bool, filter: &Vec<Vec<char>>) -> (r: bool)
    requires
        e@ == entry_of(d@),
    ensures
        r == is_listed(d@, show_hidden, filter@.map_values(|v: Vec<char>| v@)),
{
    if !show_hidden {
        let name = chars_of_string(&d.name);
        if name.len() > 0 && name[0] == '.' {
            return false;
        }
    }
    if d.is_dir || filter.len() == 0 {
        return true;
    }
    let ext = chars_of_string(&e.extension);
    filter_matches_exec(filter, &ext)
}

/// The keys stored beside a sorted list are the lower-cased names.
pub open spec fn keys_match(entries: Seq<FsEntry>, keys: Seq<Vec<char>>) -> bool {
    &&& keys.len() == entries.len()
    &&& forall|i: int| 0 <= i < keys.len() ==> #[trigger] keys[i]@ == name_key(entries[i]@)
    &&& ascii_keys_known(entries_view(entries))
}

/// For each entry whose name is ASCII, its sort key is the name with
/// `A`–`Z` lower-cased: the order among ASCII names is then the plain
/// case-insensitive order.
pub open spec fn ascii_keys_known(es: Seq<EntryModel>) -> bool {
    forall|i: int|
        0 <= i < es.len() && is_ascii_text(es[i].name) ==> #[trigger] name_key(es[i])
            == es[i].name.map_values(|c: char| crate::text::ascii_lower(c))
}

/// Puts `e` into the sorted list after every entry whose key is not greater.
fn insert_by_name(entries: &mut Vec<FsEntry>, keys: &mut Vec<Vec<char>>, e: FsEntry)
    requires
        keys_match(old(entries)@, old(keys)@),
    ensures
        keys_match(final(entries)@, final(keys)@),
        entries_view(final(entries)@) == entries_view(old(entries)@).insert(
            first_after(entries_view(old(entries)@), name_key(e@)),
            e@,
        ),
{
    let ghost ev = entries_view(entries@);
    let lower = to_lowercase(e.name.as_str());
    let key = chars_of_string(&lower);
    let mut j: usize = 0;
    while j < keys.len() && !lex_less(&key, &keys[j])
        invariant
            j <= keys.len(),
            keys_match(entries@, keys@),
            ev == entries_view(entries@),
            key@ == name_key(e@),
            forall|i: int| 0 <= i < j ==> !lex_lt(key@, #[trigger] name_key(ev[i])),
        decreases keys.len() - j,
    {
        assert(ev[j as int] == entries@[j as int]@);
        j += 1;
    }
    proof {
        if j < keys.len() {
            assert(ev[j as int] == entries@[j as int]@);
        }
        lemma_first_after_at(ev, key@, j as int);
    }
    let ghost ks = keys@;
    let ghost es = entries@;
    entries.insert(j, e);
    keys.insert(j, key);
    proof {
        assert(entries_view(entries@) =~= ev.insert(j as int, e@));
        assert forall|i: int| 0 <= i < keys@.len() implies #[trigger] keys@[i]@ == name_key(entries@[i]@) by {
            if i < j {
                assert(keys@[i] == ks[i] && entries@[i] == es[i]);
            } else if i > j {
                assert(keys@[i] == ks[i - 1] && entries@[i] == es[i - 1]);
            }
        }
        let nv = entries_view(entries@);
        assert forall|i: int| 0 <= i < nv.len() && is_ascii_text(nv[i].name) implies #[trigger] name_key(nv[i])
            == nv[i].name.map_values(|c: char| crate::text::ascii_lower(c)) by {
            if i < j {
                assert(nv[i] == ev[i]);
            } else if i > j {
                assert(nv[i] == ev[i - 1]);
            }
        }
    }
}

proof fn lemma_group_step(items: Seq<DirItemModel>, i: int, show_hidden: bool, filter: Seq<Seq<char>>, dirs: bool)
    requires
        0 <= i < items.len(),
    ensures
        group(items.take(i + 1), show_hidden, filter, dirs) == (if is_listed(items[i], show_hidden, filter)
            && items[i].is_dir == dirs {
            group(items.take(i), show_hidden, filter, dirs).push(entry_of(items[i]))
        } else {
            group(items.take(i), show_hidden, filter, dirs)
        }),
{
    assert(items.take(i + 1).drop_last() =~= items.take(i));
    assert(items.take(i + 1).last() == items[i]);
}

proof fn lemma_sort_push(s: Seq<EntryModel>, x: EntryModel)
    ensures
        sort_by_name(s.push(x)) == sort_by_name(s).insert(first_after(sort_by_name(s), name_key(x)), x),
{
    assert(s.push(x).drop_last() =~= s);
    assert(s.push(x).last() == x);
}

/// The browser list for a directory listing (see `load_entries`).
pub fn load_listing(listing: &Vec<DirItem>, show_hidden: bool, filter: &Vec<String>) -> (r: Vec<FsEntry>)
    ensures
        entries_view(r@) == load_entries(items_view(listing@), show_hidden, texts_view(filter@)),
        ascii_keys_known(entries_view(r@)),
{
    let fchars = filter_chars(filter);
    let ghost fv = texts_view(filter@);
    let ghost items = items_view(listing@);
    assert(fchars@.map_values(|v: Vec<char>| v@) =~= fv);
    let mut dirs: Vec<FsEntry> = Vec::new();
    let mut dir_keys: Vec<Vec<char>> = Vec::new();
    let mut files: Vec<FsEntry> = Vec::new();
    let mut file_keys: Vec<Vec<char>> = Vec::new();
    let mut i: usize = 0;
    assert(items.take(0) =~= Seq::<DirItemModel>::empty());
    assert(entries_view(dirs@) =~= Seq::<EntryModel>::empty());
    assert(entries_view(files@) =~= Seq::<EntryModel>::empty());
    while i < listing.len()
        invariant
            i <= listing.len(),
            items == items_view(listing@),
            fv == texts_view(filter@),
            fchars@.map_values(|v: Vec<char>| v@) == fv,
            keys_match(dirs@, dir_keys@),
            keys_match(files@, file_keys@),
            entries_view(dirs@) == sort_by_name(group(items.take(i as int), show_hidden, fv, true)),
            entries_view(files@) == sort_by_name(group(items.take(i as int), show_hidden, fv, false)),
        decreases listing.len() - i,
    {
        let d = &listing[i];
        assert(items[i as int] == d@);
        let e = entry_from_item(d);
        let listed = item_is_listed(d, &e, show_hidden, &fchars);
        proof {
            lemma_group_step(items, i as int, show_hidden, fv, true);
            lemma_group_step(items, i as int, show_hidden, fv, false);
        }
        if listed {
            if d.is_dir {
                proof {
                    lemma_sort_push(group(items.take(i as int), show_hidden, fv, true), e@);
                }
                insert_by_name(&mut dirs, &mut dir_keys, e);
            } else {
                proof {
                    lemma_sort_push(group(items.take(i as int), show_hidden, fv, false), e@);
                }
                insert_by_name(&mut files, &mut file_keys, e);
            }
        }
        i += 1;
    }
    assert(items.take(listing.len() as int) =~= items);
    let ghost dv = entries_view(dirs@);
    let ghost fl = entries_view(files@);
    dirs.append(&mut files);
    assert(entries_view(dirs@) =~= dv + fl);
    proof {
        let all = dv + fl;
        assert forall|k: int| 0 <= k < all.len() && is_ascii_text(all[k].name) implies #[trigger] name_key(all[k])
            == all[k].name.map_values(|c: char| crate::text::ascii_lower(c)) by {
            if k < dv.len() {
                assert(all[k] == dv[k]);
            } else {
                assert(all[k] == fl[k - dv.len()]);
            }
        }
    }
    dirs
}

// ---------------------------------------------------------------------------
// Browser state
// ---------------------------------------------------------------------------

/// What to do with the cursor once the awaited listing arrives.
#[derive(Debug, PartialEq, Eq)]
pub enum AfterLoad {
    /// Leave the cursor where it is.
    Keep,
    /// Put the cursor on the entry with this path, if it is listed.
    Focus(String),
    /// Put the cursor at this index, or on the last entry if the list is shorter.
    Clamp(usize),
}

/// `AfterLoad` as plain values.
pub enum AfterLoadModel {
    Keep,
    Focus(Seq<char>),
    Clamp(int),
}

impl View for AfterLoad {
    type V = AfterLoadModel;

    open spec fn view(&self) -> AfterLoadModel {
        match self {
            AfterLoad::Keep => AfterLoadModel::Keep,
            AfterLoad::Focus(p) => AfterLoadModel::Focus(p@),
            AfterLoad::Clamp(i) => AfterLoadModel::Clamp(*i as int),
        }
    }
}

/// Outcome of a key press in the browser.
#[derive(Debug, PartialEq, Eq)]
pub enum ExplorerOutcome {
    /// The user confirmed a file selection; holds the chosen path.
    Selected(String),
    /// The user dismissed the browser without selecting anything.
    Dismissed,
    /// The key was consumed but produced no final outcome yet.
    Pending,
    /// The key is not one the browser handles.
    Unhandled,
}

/// `ExplorerOutcome` as plain values.
pub enum OutcomeModel {
    Selected(Seq<char>),
    Dismissed,
    Pending,
    Unhandled,
}

impl View for ExplorerOutcome {
    type V = OutcomeModel;

    open spec fn view(&self) -> OutcomeModel {
        match self {
            ExplorerOutcome::Selected(p) => OutcomeModel::Selected(p@),
            ExplorerOutcome::Dismissed => OutcomeModel::Dismissed,
            ExplorerOutcome::Pending => OutcomeModel::Pending,
            ExplorerOutcome::Unhandled => OutcomeModel::Unhandled,
        }
    }
}

/// State of the file browser.
#[derive(Debug)]
pub struct FileExplorer {
    /// The directory being browsed.
    pub current_dir: String,
    /// Listed entries: directories first, then files, each sorted by name.
    pub entries: Vec<FsEntry>,
    /// Index of the highlighted entry.
    pub cursor: usize,
    /// Index of the first visible entry (kept in step with the cursor by the
    /// renderer).
    pub scroll_offset: usize,
    /// Only files whose extension is in this list are listed and selectable;
    /// an empty list allows every file.  Directories are always listed.
    pub extension_filter: Vec<String>,
    /// Whether dot-files are listed.
    pub show_hidden: bool,
    /// Message for the footer.
    pub status: String,
    /// Set while a listing of `current_dir` is awaited, with what to do with
    /// the cursor once it arrives.
    pub awaiting: Option<AfterLoad>,
}

/// The browser as plain values.
pub struct ExplorerModel {
    pub current_dir: Seq<char>,
    pub entries: Seq<EntryModel>,
    pub cursor: int,
    pub scroll_offset: int,
    pub filter: Seq<Seq<char>>,
    pub show_hidden: bool,
    pub status: Seq<char>,
    pub awaiting: Option<AfterLoadModel>,
}

impl View for FileExplorer {
    type V = ExplorerModel;

    open spec fn view(&self) -> ExplorerModel {
        ExplorerModel {
            current_dir: self.current_dir@,
            entries: entries_view(self.entries@),
            cursor: self.cursor as int,
            scroll_offset: self.scroll_offset as int,
            filter: texts_view(self.extension_filter@),
            show_hidden: self.show_hidden,
            status: self.status@,
            awaiting: match self.awaiting {
                Some(a) => Some(a@),
                None => None,
            },
        }
    }
}

/// The first index of an entry with path `p`.
pub open spec fn position_of_path(s: Seq<EntryModel>, p: Seq<char>) -> Option<int>
    decreases s.len(),
{
    if s.len() == 0 {
        None
    } else if s[0].path == p {
        Some(0)
    } else {
        match position_of_path(s.drop_first(), p) {
            Some(i) => Some(i + 1),
            None => None,
        }
    }
}

/// Where the cursor lands after a listing arrived.
pub open spec fn cursor_after_load(cursor: int, awaiting: Option<AfterLoadModel>, entries: Seq<EntryModel>) -> int {
    match awaiting {
        Some(AfterLoadModel::Clamp(w)) => if entries.len() == 0 {
            0
        } else if w < entries.len() - 1 {
            w
        } else {
            entries.len() - 1
        },
        Some(AfterLoadModel::Focus(p)) => match position_of_path(entries, p) {
            Some(i) => i,
            None => cursor,
        },
        _ => cursor,
    }
}

/// The browser after a listing of its directory arrived: the status is
/// cleared, the list rebuilt, the cursor placed as awaited.
pub open spec fn reloaded(m: ExplorerModel, items: Seq<DirItemModel>) -> ExplorerModel {
    let entries = load_entries(items, m.show_hidden, m.filter);
    ExplorerModel {
        entries,
        cursor: cursor_after_load(m.cursor, m.awaiting, entries),
        status: Seq::empty(),
        awaiting: None,
        ..m
    }
}

/// The browser moved to `dir`, cursor and scroll reset, before its listing
/// arrived.
pub open spec fn at_dir(m: ExplorerModel, dir: Seq<char>) -> ExplorerModel {
    ExplorerModel { current_dir: dir, cursor: 0, scroll_offset: 0, awaiting: None, ..m }
}

/// The cursor one entry up, stopping at the top.
pub open spec fn moved_up(m: ExplorerModel) -> ExplorerModel {
    ExplorerModel { cursor: if m.cursor > 0 { m.cursor - 1 } else { m.cursor }, ..m }
}

/// The cursor one entry down, stopping at the last entry.
pub open spec fn moved_down(m: ExplorerModel) -> ExplorerModel {
    ExplorerModel {
        cursor: if m.entries.len() > 0 && m.cursor < m.entries.len() - 1 {
            m.cursor + 1
        } else {
            m.cursor
        },
        ..m
    }
}

/// Status message when the browser is asked to go above the root.
pub open spec fn at_root_message() -> Seq<char> {
    "Already at the filesystem root."@
}

/// Prefix of the message shown when a file of the wrong type is confirmed.
pub open spec fn unsupported_prefix() -> Seq<char> {
    "Not a supported file type. Allowed: "@
}

/// `.ext` for each filter extension, joined by `, `.
pub open spec fn dotted_list(f: Seq<Seq<char>>) -> Seq<char>
    decreases f.len(),
{
    if f.len() == 0 {
        Seq::empty()
    } else if f.len() == 1 {
        seq!['.'] + f[0]
    } else {
        dotted_list(f.drop_last()) + seq![',', ' ', '.'] + f.last()
    }
}

/// The allowed extensions as shown to the user: `*` when every file is allowed.
pub open spec fn hint_text(f: Seq<Seq<char>>) -> Seq<char> {
    if f.len() == 0 {
        "*"@
    } else {
        dotted_list(f)
    }
}

/// A file entry is selectable when the filter is empty or matches its
/// extension; a directory never is.
pub open spec fn selectable(filter: Seq<Seq<char>>, e: EntryModel) -> bool {
    !e.is_dir && (filter.len() == 0 || filter_matches(filter, e.extension))
}

/// What a key press asks of the browser.
#[derive(Debug, Clone, Copy, PartialEq, Eq, Structural)]
pub enum ExplorerAction {
    Dismiss,
    Up,
    Down,
    PageUp,
    PageDown,
    Top,
    Bottom,
    Ascend,
    Confirm,
    ToggleHidden,
    Ignore,
}

/// The browser's key map: Esc or a bare `q` dismiss; arrows and vim keys
/// move; PageUp/PageDown move by ten; Home/`g` and End/`G` jump; Backspace,
/// Left and `h` go to the parent; Enter, Right and `l` confirm; `.` toggles
/// dot-files.
pub open spec fn explorer_action(k: KeyPress) -> ExplorerAction {
    match k.key {
        Key::Esc => ExplorerAction::Dismiss,
        Key::Char(c) => if c == 'q' && k.is_plain() {
            ExplorerAction::Dismiss
        } else if c == 'k' {
            ExplorerAction::Up
        } else if c == 'j' {
            ExplorerAction::Down
        } else if c == 'g' {
            ExplorerAction::Top
        } else if c == 'G' {
            ExplorerAction::Bottom
        } else if c == 'h' {
            ExplorerAction::Ascend
        } else if c == 'l' {
            ExplorerAction::Confirm
        } else if c == '.' {
            ExplorerAction::ToggleHidden
        } else {
            ExplorerAction::Ignore
        },
        Key::Up => ExplorerAction::Up,
        Key::Down => ExplorerAction::Down,
        Key::PageUp => ExplorerAction::PageUp,
        Key::PageDown => ExplorerAction::PageDown,
        Key::Home => ExplorerAction::Top,
        Key::End => ExplorerAction::Bottom,
        Key::Backspace | Key::Left => ExplorerAction::Ascend,
        Key::Enter | Key::Right => ExplorerAction::Confirm,
        _ => ExplorerAction::Ignore,
    }
}

/// Ten steps up.
pub open spec fn paged_up(m: ExplorerModel) -> ExplorerModel {
    ExplorerModel { cursor: if m.cursor >= 10 { m.cursor - 10 } else { 0 }, ..m }
}

/// Ten steps down, stopping at the last entry.
pub open spec fn paged_down(m: ExplorerModel) -> ExplorerModel {
    let last = m.entries.len() - 1;
    ExplorerModel {
        cursor: if m.entries.len() > 0 && m.cursor < last {
            if m.cursor + 10 < last {
                m.cursor + 10
            } else {
                last
            }
        } else {
            m.cursor
        },
        ..m
    }
}

/// Cursor and scroll at the top.
pub open spec fn to_top(m: ExplorerModel) -> ExplorerModel {
    ExplorerModel { cursor: 0, scroll_offset: 0, ..m }
}

/// Cursor on the last entry (unchanged when the list is empty).
pub open spec fn to_bottom(m: ExplorerModel) -> ExplorerModel {
    ExplorerModel { cursor: if m.entries.len() > 0 { m.entries.len() - 1 } else { m.cursor }, ..m }
}

/// Going to the parent directory: the cursor will land on the directory left
/// behind; at the root only the status changes.
pub open spec fn ascended(m: ExplorerModel) -> ExplorerModel {
    match path_parent(m.current_dir) {
        Some(p) => ExplorerModel {
            current_dir: p,
            cursor: 0,
            scroll_offset: 0,
            awaiting: Some(AfterLoadModel::Focus(m.current_dir)),
            ..m
        },
        None => ExplorerModel { status: at_root_message(), ..m },
    }
}

/// Confirming the highlighted entry: a directory is entered, a selectable
/// file is chosen, another file only changes the status.
pub open spec fn confirmed(m: ExplorerModel) -> (ExplorerModel, OutcomeModel) {
    if m.cursor >= m.entries.len() {
        (m, OutcomeModel::Pending)
    } else {
        let e = m.entries[m.cursor];
        if e.is_dir {
            (
                ExplorerModel {
                    current_dir: e.path,
                    cursor: 0,
                    scroll_offset: 0,
                    awaiting: Some(AfterLoadModel::Keep),
                    ..m
                },
                OutcomeModel::Pending,
            )
        } else if selectable(m.filter, e) {
            (m, OutcomeModel::Selected(e.path))
        } else {
            (ExplorerModel { status: unsupported_prefix() + hint_text(m.filter), ..m }, OutcomeModel::Pending)
        }
    }
}

/// Dot-files toggled; the directory is listed again and the cursor keeps its
/// index as far as the new list allows.
pub open spec fn toggled(m: ExplorerModel) -> ExplorerModel {
    ExplorerModel { show_hidden: !m.show_hidden, awaiting: Some(AfterLoadModel::Clamp(m.cursor)), ..m }
}

/// The browser after a key press, and the outcome.
pub open spec fn explorer_step(m: ExplorerModel, k: KeyPress) -> (ExplorerModel, OutcomeModel) {
    match explorer_action(k) {
        ExplorerAction::Dismiss => (m, OutcomeModel::Dismissed),
        ExplorerAction::Up => (moved_up(m), OutcomeModel::Pending),
        ExplorerAction::Down => (moved_down(m), OutcomeModel::Pending),
        ExplorerAction::PageUp => (paged_up(m), OutcomeModel::Pending),
        ExplorerAction::PageDown => (paged_down(m), OutcomeModel::Pending),
        ExplorerAction::Top => (to_top(m), OutcomeModel::Pending),
        ExplorerAction::Bottom => (to_bottom(m), OutcomeModel::Pending),
        ExplorerAction::Ascend => (ascended(m), OutcomeModel::Pending),
        ExplorerAction::Confirm => confirmed(m),
        ExplorerAction::ToggleHidden => (toggled(m), OutcomeModel::Pending),
        ExplorerAction::Ignore => (m, OutcomeModel::Unhandled),
    }
}

/// The browser's action for a key press.
pub fn classify_key(k: KeyPress) -> (r: ExplorerAction)
    ensures
        r == explorer_action(k),
{
    match k.key {
        Key::Esc => ExplorerAction::Dismiss,
        Key::Char(c) => {
            if c == 'q' && !k.control && !k.other_modifiers {
                ExplorerAction::Dismiss
            } else if c == 'k' {
                ExplorerAction::Up
            } else if c == 'j' {
                ExplorerAction::Down
            } else if c == 'g' {
                ExplorerAction::Top
            } else if c == 'G' {
                ExplorerAction::Bottom
            } else if c == 'h' {
                ExplorerAction::Ascend
            } else if c == 'l' {
                ExplorerAction::Confirm
            } else if c == '.' {
                ExplorerAction::ToggleHidden
            } else {
                ExplorerAction::Ignore
            }
        },
        Key::Up => ExplorerAction::Up,
        Key::Down => ExplorerAction::Down,
        Key::PageUp => ExplorerAction::PageUp,
        Key::PageDown => ExplorerAction::PageDown,
        Key::Home => ExplorerAction::Top,
        Key::End => ExplorerAction::Bottom,
        Key::Backspace | Key::Left => ExplorerAction::Ascend,
        Key::Enter | Key::Right => ExplorerAction::Confirm,
        _ => ExplorerAction::Ignore,
    }
}

impl FileExplorer {
    /// Processes one key press (see `explorer_step`).  When `awaiting` is set
    /// afterwards, the caller lists `current_dir` and calls `reload`.
    pub fn handle_key(&mut self, key: KeyPress) -> (r: ExplorerOutcome)
        ensures
            (final(self)@, r@) == explorer_step(old(self)@, key),
    {
        match classify_key(key) {
            ExplorerAction::Dismiss => ExplorerOutcome::Dismissed,
            ExplorerAction::Up => {
                self.move_up();
                ExplorerOutcome::Pending
            },
            ExplorerAction::Down => {
                self.move_down();
                ExplorerOutcome::Pending
            },
            ExplorerAction::PageUp => {
                let mut n: usize = 0;
                while n < 10
                    invariant
                        n <= 10,
                        self@ == (ExplorerModel {
                            cursor: if old(self).cursor >= n { old(self).cursor - n } else { 0 },
                            ..old(self)@
                        }),
                    decreases 10 - n,
                {
                    self.move_up();
                    n += 1;
                }
                ExplorerOutcome::Pending
            },
            ExplorerAction::PageDown => {
                let mut n: usize = 0;
                let ghost last = old(self)@.entries.len() - 1;
                while n < 10
                    invariant
                        n <= 10,
                        last == old(self)@.entries.len() - 1,
                        self@ == (ExplorerModel {
                            cursor: if old(self)@.entries.len() > 0 && old(self).cursor < last {
                                if old(self).cursor + n < last {
                                    old(self).cursor + n
                                } else {
                                    last
                                }
                            } else {
                                old(self).cursor as int
                            },
                            ..old(self)@
                        }),
                    decreases 10 - n,
                {
                    self.move_down();
                    n += 1;
                }
                ExplorerOutcome::Pending
            },
            ExplorerAction::Top => {
                self.cursor = 0;
                self.scroll_offset = 0;
                ExplorerOutcome::Pending
            },
            ExplorerAction::Bottom => {
                if self.entries.len() > 0 {
                    self.cursor = self.entries.len() - 1;
                }
                ExplorerOutcome::Pending
            },
            ExplorerAction::Ascend => {
                self.ascend();
                ExplorerOutcome::Pending
            },
            ExplorerAction::Confirm => self.confirm(),
            ExplorerAction::ToggleHidden => {
                self.show_hidden = !self.show_hidden;
                self.awaiting = Some(AfterLoad::Clamp(self.cursor));
                ExplorerOutcome::Pending
            },
            ExplorerAction::Ignore => ExplorerOutcome::Unhandled,
        }
    }

    /// Goes to the parent directory (see `ascended`).
    pub fn ascend(&mut self)
        ensures
            final(self)@ == ascended(old(self)@),
    {
        match parent(self.current_dir.as_str()) {
            Some(p) => {
                let prev = self.current_dir.clone();
                self.current_dir = p;
                self.cursor = 0;
                self.scroll_offset = 0;
                self.awaiting = Some(AfterLoad::Focus(prev));
            },
            None => {
                self.status = string_of(&chars_of("Already at the filesystem root."));
            },
        }
    }

    /// Confirms the highlighted entry (see `confirmed`).
    pub fn confirm(&mut self) -> (r: ExplorerOutcome)
        ensures
            (final(self)@, r@) == confirmed(old(self)@),
    {
        if self.cursor >= self.entries.len() {
            return ExplorerOutcome::Pending;
        }
        let is_dir = self.entries[self.cursor].is_dir;
        let path = self.entries[self.cursor].path.clone();
        assert(self@.entries[self.cursor as int] == self.entries@[self.cursor as int]@);
        if is_dir {
            self.current_dir = path;
            self.cursor = 0;
            self.scroll_offset = 0;
            self.awaiting = Some(AfterLoad::Keep);
            ExplorerOutcome::Pending
        } else if self.is_selectable(&self.entries[self.cursor]) {
            ExplorerOutcome::Selected(path)
        } else {
            let mut msg = chars_of("Not a supported file type. Allowed: ");
            let hint = self.filter_hint();
            push_all(&mut msg, &chars_of_string(&hint));
            self.status = string_of(&msg);
            ExplorerOutcome::Pending
        }
    }

    /// A browser on `initial_dir`, showing its `listing`.  Dot-files are not
    /// shown; `extension_filter` holds lower-case extensions without the dot
    /// (empty: all files).
    pub fn new(initial_dir: String, extension_filter: Vec<String>, listing: Vec<DirItem>) -> (r: FileExplorer)
        ensures
            r@.current_dir == initial_dir@,
            r@.filter == texts_view(extension_filter@),
            !r.show_hidden,
            r@.entries == load_entries(items_view(listing@), false, texts_view(extension_filter@)),
            ascii_keys_known(r@.entries),
            r.cursor == 0,
            r.scroll_offset == 0,
            r@.status == Seq::<char>::empty(),
            r.awaiting is None,
    {
        let mut explorer = FileExplorer {
            current_dir: initial_dir,
            entries: Vec::new(),
            cursor: 0,
            scroll_offset: 0,
            extension_filter,
            show_hidden: false,
            status: String::new(),
            awaiting: None,
        };
        explorer.reload(listing);
        explorer
    }

    /// Moves to `path`, whose listing is `listing`; cursor and scroll reset.
    pub fn navigate_to(&mut self, path: String, listing: Vec<DirItem>)
        ensures
            final(self)@ == reloaded(at_dir(old(self)@, path@), items_view(listing@)),
            ascii_keys_known(final(self)@.entries),
    {
        self.current_dir = path;
        self.cursor = 0;
        self.scroll_offset = 0;
        self.awaiting = None;
        self.reload(listing);
    }

    /// Rebuilds the list from a fresh listing of `current_dir`.
    pub fn reload(&mut self, listing: Vec<DirItem>)
        ensures
            final(self)@ == reloaded(old(self)@, items_view(listing@)),
            ascii_keys_known(final(self)@.entries),
    {
        self.status = String::new();
        self.entries = load_listing(&listing, self.show_hidden, &self.extension_filter);
        let awaiting = self.awaiting.take();
        match awaiting {
            Some(AfterLoad::Clamp(w)) => {
                if self.entries.len() == 0 {
                    self.cursor = 0;
                } else if w < self.entries.len() - 1 {
                    self.cursor = w;
                } else {
                    self.cursor = self.entries.len() - 1;
                }
            },
            Some(AfterLoad::Focus(p)) => {
                match self.position_of(&p) {
                    Some(i) => {
                        self.cursor = i;
                    },
                    None => {},
                }
            },
            _ => {},
        }
        assert(self@.awaiting is None);
    }

    /// The index of the first entry whose path is `p`.
    fn position_of(&self, p: &String) -> (r: Option<usize>)
        ensures
            match r {
                Some(i) => position_of_path(self@.entries, p@) == Some(i as int),
                None => position_of_path(self@.entries, p@) is None,
            },
    {
        let ghost ev = self@.entries;
        let pv = chars_of_string(p);
        let mut i: usize = 0;
        assert(ev.skip(0) =~= ev);
        while i < self.entries.len()
            invariant
                i <= self.entries.len(),
                ev == self@.entries,
                pv@ == p@,
                position_of_path(ev, p@) == match position_of_path(ev.skip(i as int), p@) {
                    Some(j) => Some(j + i),
                    None => None,
                },
            decreases self.entries.len() - i,
        {
            let here = chars_of_string(&self.entries[i].path);
            assert(ev.skip(i as int)[0] == ev[i as int]);
            assert(ev.skip(i as int).drop_first() =~= ev.skip(i as int + 1));
            if eq_chars(&here, &pv) {
                return Some(i);
            }
            i += 1;
        }
        None
    }

    /// The highlighted entry, or `None` when the cursor is past the list.
    pub fn current_entry(&self) -> (r: Option<&FsEntry>)
        ensures
            match r {
                Some(e) => self.cursor < self.entries@.len() && *e == self.entries@[self.cursor as int],
                None => self.cursor >= self.entries@.len(),
            },
    {
        if self.cursor < self.entries.len() {
            Some(&self.entries[self.cursor])
        } else {
            None
        }
    }

    /// Moves the cursor one entry up, stopping at the top.
    pub fn move_up(&mut self)
        ensures
            final(self)@ == moved_up(old(self)@),
    {
        if self.cursor > 0 {
            self.cursor -= 1;
        }
    }

    /// Moves the cursor one entry down, stopping at the last entry.
    pub fn move_down(&mut self)
        ensures
            final(self)@ == moved_down(old(self)@),
    {
        if self.entries.len() > 0 && self.cursor < self.entries.len() - 1 {
            self.cursor += 1;
        }
    }

    /// Whether `entry` may be chosen (see `selectable`).
    pub fn is_selectable(&self, entry: &FsEntry) -> (r: bool)
        ensures
            r == selectable(self@.filter, entry@),
    {
        if entry.is_dir {
            return false;
        }
        if self.extension_filter.len() == 0 {
            return true;
        }
        let fchars = filter_chars(&self.extension_filter);
        assert(fchars@.map_values(|v: Vec<char>| v@) =~= self@.filter);
        let ext = chars_of_string(&entry.extension);
        filter_matches_exec(&fchars, &ext)
    }

    /// The allowed extensions as shown to the user (see `hint_text`).
    pub fn filter_hint(&self) -> (r: String)
        ensures
            r@ == hint_text(self@.filter),
    {
        let ghost f = self@.filter;
        if self.extension_filter.len() == 0 {
            return string_of(&chars_of("*"));
        }
        let mut out: Vec<char> = vec!['.'];
        push_all(&mut out, &chars_of_string(&self.extension_filter[0]));
        assert(f.take(1).drop_last() =~= f.take(0));
        assert(out@ =~= dotted_list(f.take(1)));
        let mut i: usize = 1;
        while i < self.extension_filter.len()
            invariant
                1 <= i <= self.extension_filter.len(),
                f == self@.filter,
                out@ == dotted_list(f.take(i as int)),
            decreases self.extension_filter.len() - i,
        {
            let sep = vec![',', ' ', '.'];
            push_all(&mut out, &sep);
            push_all(&mut out, &chars_of_string(&self.extension_filter[i]));
            assert(f.take(i as int + 1).drop_last() =~= f.take(i as int));
            assert(f.take(i as int + 1).last() == f[i as int]);
            assert(out@ =~= dotted_list(f.take(i as int + 1)));
            i += 1;
        }
        assert(f.take(i as int) =~= f);
        string_of(&out)
    }

    /// Keep the cursor inside a list `visible` rows high: scroll up to it
    /// when it is above the first visible row, down to it when it is below
    /// the last (see `scrolled_into_view`).
    pub fn scroll_into_view(&mut self, visible: usize)
        requires
            old(self).cursor < usize::MAX,
        ensures
            final(self)@ == (ExplorerModel {
                scroll_offset: scrolled_into_view(old(self)@.cursor, old(self)@.scroll_offset, visible as int),
                ..old(self)@
            }),
    {
        if self.cursor < self.scroll_offset {
            self.scroll_offset = self.cursor;
        } else if self.cursor - self.scroll_offset >= visible {
            self.scroll_offset = self.cursor - visible + 1;
        }
    }

    /// The list's position in its title (see `position_text`).
    pub fn position_label(&self) -> (r: String)
        ensures
            r@ == position_text(self@.cursor, self@.entries.len()),
    {
        if self.entries.len() == 0 {
            return string_of(&chars_of("empty"));
        }
        let mut out = decimal_exec(self.cursor as u128 + 1);
        out.push('/');
        push_all(&mut out, &decimal_exec(self.entries.len() as u128));
        string_of(&out)
    }

    /// The directory as the header shows it in a box `area_width` cells wide
    /// (see `header_text`).  The cut must fall at the start of a character.
    pub fn header_path(&self, area_width: u16) -> (r: String)
        requires
            header_cut_ok(self@.current_dir, area_width as int),
        ensures
            r@ == header_text(self@.current_dir, area_width as int),
    {
        let p = chars_of_string(&self.current_dir);
        let inner: u128 = if area_width > 4 {
            (area_width - 4) as u128
        } else {
            0
        };
        let total = utf8_len_exec(&p);
        if total > inner && inner > 3 {
            let k = char_index_at_byte(&p, total - inner + 1);
            let mut out = chars_of("…");
            push_all(&mut out, &slice_chars(&p, k, p.len()));
            assert(p@.subrange(k as int, p@.len() as int) =~= p@.skip(k as int));
            string_of(&out)
        } else {
            self.current_dir.clone()
        }
    }

    /// The footer's message (see `footer_text`).
    pub fn footer_status(&self) -> (r: String)
        ensures
            r@ == footer_text(self@),
    {
        if !self.status.as_str().is_empty() {
            return self.status.clone();
        }
        let mut out = chars_of("Filter: ");
        if self.extension_filter.len() == 0 {
            push_all(&mut out, &chars_of("all files"));
        } else {
            let hint = self.filter_hint();
            push_all(&mut out, &chars_of_string(&hint));
        }
        if self.show_hidden {
            push_all(&mut out, &chars_of(" [+hidden]"));
        }
        string_of(&out)
    }
}

/// The byte offset at which a directory too long for its header box is cut
/// (the box's borders and padding take four cells; the cut leaves room for
/// a leading `…`), or `None` when it fits or the box is too narrow.
pub open spec fn header_cut(path: Seq<char>, area_width: int) -> Option<int> {
    let inner = if area_width > 4 {
        area_width - 4
    } else {
        0
    };
    if utf8_len(path) > inner && inner > 3 {
        Some(utf8_len(path) - inner + 1)
    } else {
        None
    }
}

/// The cut, if any, falls at the start of a character.
pub open spec fn header_cut_ok(path: Seq<char>, area_width: int) -> bool {
    match header_cut(path, area_width) {
        Some(b) => char_at_byte(path, b) is Some,
        None => true,
    }
}

/// The header's text: the directory, or `…` and its tail when it is cut.
pub open spec fn header_text(path: Seq<char>, area_width: int) -> Seq<char> {
    match header_cut(path, area_width) {
        Some(b) => match char_at_byte(path, b) {
            Some(k) => "…"@ + path.skip(k),
            None => path,
        },
        None => path,
    }
}

/// The first visible row after scrolling to the cursor.
pub open spec fn scrolled_into_view(cursor: int, offset: int, visible: int) -> int {
    if cursor < offset {
        cursor
    } else if cursor >= offset + visible {
        cursor - visible + 1
    } else {
        offset
    }
}

/// After scrolling, the cursor lies among the visible rows, and a cursor
/// that was already visible leaves the list where it was.
pub proof fn law_scrolling_shows_cursor(cursor: int, offset: int, visible: int)
    requires
        0 <= cursor,
        0 <= offset,
        0 < visible,
    ensures
        scrolled_into_view(cursor, offset, visible) <= cursor < scrolled_into_view(cursor, offset, visible)
            + visible,
        0 <= scrolled_into_view(cursor, offset, visible),
        offset <= cursor < offset + visible ==> scrolled_into_view(cursor, offset, visible) == offset,
{
}

/// `empty` for an empty list, else the cursor's row counted from 1 and the
/// number of rows: `3/42`.
pub open spec fn position_text(cursor: int, count: nat) -> Seq<char> {
    if count == 0 {
        "empty"@
    } else {
        decimal((cursor + 1) as nat) + seq!['/'] + decimal(count)
    }
}

/// The footer shows the status message when there is one, else the filter
/// (`all files` when it is empty) and whether hidden files are shown.
pub open spec fn footer_text(m: ExplorerModel) -> Seq<char> {
    if m.status.len() > 0 {
        m.status
    } else {
        "Filter: "@ + (if m.filter.len() == 0 { "all files"@ } else { dotted_list(m.filter) }) + (if m.show_hidden {
            " [+hidden]"@
        } else {
            Seq::empty()
        })
    }
}

// ---------------------------------------------------------------------------
// Icons
// ---------------------------------------------------------------------------

/// The icon shown before an entry's name.
pub open spec fn icon_for(e: EntryModel) -> Seq<char> {
    let x = e.extension;
    if e.is_dir {
        "📁"@
    } else if x == "iso"@ {
        "💿"@
    } else if x == "img"@ {
        "🖼 "@
    } else if x == "zip"@ || x == "gz"@ || x == "xz"@ || x == "zst"@ || x == "bz2"@ || x == "tar"@ {
        "📦"@
    } else if x == "sh"@ || x == "bash"@ || x == "zsh"@ || x == "fish"@ {
        "📜"@
    } else if x == "toml"@ || x == "yaml"@ || x == "yml"@ || x == "json"@ {
        "⚙ "@
    } else {
        "📄"@
    }
}

/// `ext` is the text `lit`.
fn is_text(ext: &Vec<char>, lit: &str) -> (r: bool)
    ensures
        r == (ext@ == lit@),
{
    eq_chars(ext, &chars_of(lit))
}

/// The icon shown before an entry's name (see `icon_for`).
pub fn entry_icon(entry: &FsEntry) -> (r: &'static str)
    ensures
        r@ == icon_for(entry@),
{
    if entry.is_dir {
        return "📁";
    }
    let x = chars_of_string(&entry.extension);
    if is_text(&x, "iso") {
        "💿"
    } else if is_text(&x, "img") {
        "🖼 "
    } else if is_text(&x, "zip") || is_text(&x, "gz") || is_text(&x, "xz") || is_text(&x, "zst")
        || is_text(&x, "bz2") || is_text(&x, "tar") {
        "📦"
    } else if is_text(&x, "sh") || is_text(&x, "bash") || is_text(&x, "zsh") || is_text(&x, "fish") {
        "📜"
    } else if is_text(&x, "toml") || is_text(&x, "yaml") || is_text(&x, "yml") || is_text(&x, "json") {
        "⚙ "
    } else {
        "📄"
    }
}

// ---------------------------------------------------------------------------
// Sizes
// ---------------------------------------------------------------------------

/// Two to the power `s`.
pub open spec fn two_to(s: nat) -> nat
    decreases s,
{
    if s == 0 {
        1
    } else {
        2 * two_to((s - 1) as nat)
    }
}

/// `n / p` rounded to the nearest integer, halves to even.
pub open spec fn round_div(n: nat, p: nat) -> nat {
    let q = n / p;
    let r = n % p;
    if 2 * r > p || (2 * r == p && q % 2 == 1) {
        q + 1
    } else {
        q
    }
}

/// The number of low bits a 64-bit integer loses in a double: the least `s`
/// with `n < 2^(53 + s)`.
pub open spec fn double_scale(n: nat, s: nat) -> nat
    decreases 11 - s,
{
    if s >= 11 || n < two_to(53 + s) {
        s
    } else {
        double_scale(n, s + 1)
    }
}

/// The value of `n as f64`: `n` rounded to 53 significant bits, halves to even.
pub open spec fn as_double(n: nat) -> nat {
    let p = two_to(double_scale(n, 0));
    round_div(n, p) * p
}

/// `format!("{:.1} {unit}", x / scale)` for a whole number `x`.
pub open spec fn one_decimal(x: nat, scale: nat, unit: Seq<char>) -> Seq<char> {
    let t = round_div(x * 10, scale);
    decimal(t / 10) + seq!['.', digit_char(t % 10), ' '] + unit
}

/// A byte count as shown beside a file: bytes below 1 KiB, else one decimal
/// of KB, MB or GB (powers of 1024), computed as the double division does.
pub open spec fn size_text(bytes: u64) -> Seq<char> {
    if bytes >= 1_073_741_824 {
        one_decimal(as_double(bytes as nat), 1_073_741_824, "GB"@)
    } else if bytes >= 1_048_576 {
        one_decimal(as_double(bytes as nat), 1_048_576, "MB"@)
    } else if bytes >= 1024 {
        one_decimal(as_double(bytes as nat), 1024, "KB"@)
    } else {
        decimal(bytes as nat) + " B"@
    }
}

/// `round_div` on machine integers.
pub(crate) fn round_div_exec(n: u128, p: u128) -> (r: u128)
    requires
        p > 0,
        n < 0x1_0000_0000_0000_0000_0000_0000_0000,
    ensures
        r == round_div(n as nat, p as nat),
{
    let q = n / p;
    let r = n % p;
    assert(q * p <= n) by (nonlinear_arith)
        requires
            q == n / p,
            p > 0,
    ;
    assert(q < 0x1_0000_0000_0000_0000_0000_0000_0000) by (nonlinear_arith)
        requires
            q == n / p,
            p > 0,
            n < 0x1_0000_0000_0000_0000_0000_0000_0000,
    ;
    if r > p - r || (r == p - r && q % 2 == 1) {
        q + 1
    } else {
        q
    }
}

/// The value of `n as f64` (see `as_double`).
pub(crate) fn double_value(n: u64) -> (x: u128)
    ensures
        x == as_double(n as nat),
        x <= 0x1_0000_0000_0000_1000,
{
    let mut s: u64 = 0;
    let mut p: u128 = 1;
    let mut bound: u128 = 9007199254740992;
    proof {
        lemma_two_to_values();
    }
    while s < 11 && (n as u128) >= bound
        invariant
            s <= 11,
            p == two_to(s as nat),
            bound == two_to(53 + s as nat),
            double_scale(n as nat, 0) == double_scale(n as nat, s as nat),
            two_to(64) == 0x1_0000_0000_0000_0000,
            two_to(11) == 2048,
        decreases 11 - s,
    {
        assert(two_to(53 + s as nat + 1) == 2 * two_to(53 + s as nat));
        assert(two_to(s as nat + 1) == 2 * two_to(s as nat));
        proof {
            lemma_two_to_mono(53 + s as nat + 1, 64);
            lemma_two_to_mono(s as nat + 1, 11);
        }
        p = p * 2;
        bound = bound * 2;
        s += 1;
    }
    assert(double_scale(n as nat, s as nat) == s);
    assert(1 <= p <= 2048) by {
        lemma_two_to_mono(s as nat, 11);
    }
    let m = round_div_exec(n as u128, p);
    assert(m * p <= 0x1_0000_0000_0000_1000) by (nonlinear_arith)
        requires
            m == round_div(n as nat, p as nat),
            p > 0,
            p <= 2048,
            n < 0x1_0000_0000_0000_0000,
    ;
    m * p
}

proof fn lemma_two_to_pos(a: nat)
    ensures
        two_to(a) >= 1,
    decreases a,
{
    if a > 0 {
        lemma_two_to_pos((a - 1) as nat);
    }
}

proof fn lemma_two_to_mono(a: nat, b: nat)
    requires
        a <= b,
    ensures
        two_to(a) <= two_to(b),
        two_to(a) >= 1,
    decreases b,
{
    lemma_two_to_pos(a);
    if a < b {
        lemma_two_to_mono(a, (b - 1) as nat);
    }
}

proof fn lemma_two_to_add(a: nat, b: nat)
    ensures
        two_to(a + b) == two_to(a) * two_to(b),
    decreases a,
{
    if a > 0 {
        let a1 = (a - 1) as nat;
        lemma_two_to_add(a1, b);
        assert(((a + b) - 1) as nat == a1 + b);
        assert(two_to(a + b) == 2 * two_to(a1 + b));
        assert(two_to(a) == 2 * two_to(a1));
        let x = two_to(a1);
        let y = two_to(b);
        assert(2 * (x * y) == (2 * x) * y) by (nonlinear_arith);
        assert(two_to(a + b) == 2 * (x * y));
        assert(two_to(a) * two_to(b) == (2 * x) * y);
    } else {
        assert(two_to(0) == 1);
        assert(a + b == b);
    }
}

proof fn lemma_two_to_values()
    ensures
        two_to(11) == 2048,
        two_to(53) == 9007199254740992,
        two_to(64) == 0x1_0000_0000_0000_0000,
{
    assert(two_to(8) == 256) by {
        reveal_with_fuel(two_to, 9);
    }
    assert(two_to(11) == 2048) by {
        reveal_with_fuel(two_to, 12);
    }
    assert(two_to(5) == 32) by {
        reveal_with_fuel(two_to, 6);
    }
    lemma_two_to_add(8, 8);
    assert(two_to(16) == 65536);
    lemma_two_to_add(16, 16);
    assert(two_to(32) == 0x1_0000_0000);
    lemma_two_to_add(32, 32);
    assert(two_to(64) == 0x1_0000_0000 * 0x1_0000_0000);
    lemma_two_to_add(16, 5);
    assert(two_to(21) == 65536 * 32);
    lemma_two_to_add(32, 21);
    assert(two_to(53) == 0x1_0000_0000 * (65536 * 32));
}

/// `one_decimal` on machine integers.
fn one_decimal_exec(x: u128, scale: u128, unit: &str) -> (r: String)
    requires
        scale > 0,
        x <= 0x1_0000_0000_0000_1000,
    ensures
        r@ == one_decimal(x as nat, scale as nat, unit@),
{
    let t = round_div_exec(x * 10, scale);
    let mut out = decimal_exec(t / 10);
    out.push('.');
    out.push(char_from_ascii((t % 10) as u32 + 48));
    out.push(' ');
    push_all(&mut out, &chars_of(unit));
    assert(out@ =~= one_decimal(x as nat, scale as nat, unit@));
    string_of(&out)
}

/// A byte count as shown beside a file (see `size_text`).
pub fn fmt_size(bytes: u64) -> (r: String)
    ensures
        r@ == size_text(bytes),
{
    if bytes >= 1_073_741_824 {
        one_decimal_exec(double_value(bytes), 1_073_741_824, "GB")
    } else if bytes >= 1_048_576 {
        one_decimal_exec(double_value(bytes), 1_048_576, "MB")
    } else if bytes >= 1024 {
        one_decimal_exec(double_value(bytes), 1024, "KB")
    } else {
        let mut out = decimal_exec(bytes as u128);
        push_all(&mut out, &chars_of(" B"));
        string_of(&out)
    }
}

// ---------------------------------------------------------------------------
// Laws of the listing
// ---------------------------------------------------------------------------

pub(crate) proof fn lemma_lex_irrefl(a: Seq<char>)
    ensures
        !lex_lt(a, a),
    decreases a.len(),
{
    if a.len() > 0 {
        lemma_lex_irrefl(a.drop_first());
    }
}

pub(crate) proof fn lemma_lex_trans(a: Seq<char>, b: Seq<char>, c: Seq<char>)
    requires
        lex_lt(a, b),
        lex_lt(b, c),
    ensures
        lex_lt(a, c),
    decreases a.len(),
{
    if a.len() > 0 && b.len() > 0 && c.len() > 0 && a[0] == b[0] && b[0] == c[0] {
        lemma_lex_trans(a.drop_first(), b.drop_first(), c.drop_first());
    }
}

/// The entries are sorted by lower-cased name.
pub open spec fn names_sorted(s: Seq<EntryModel>) -> bool {
    forall|i: int, j: int| 0 <= i < j < s.len() ==> !lex_lt(#[trigger] name_key(s[j]), #[trigger] name_key(s[i]))
}

proof fn lemma_first_after_props(s: Seq<EntryModel>, k: Seq<char>)
    ensures
        0 <= first_after(s, k) <= s.len(),
        forall|i: int| 0 <= i < first_after(s, k) ==> !lex_lt(k, #[trigger] name_key(s[i])),
        first_after(s, k) < s.len() ==> lex_lt(k, name_key(s[first_after(s, k)])),
    decreases s.len(),
{
    if s.len() > 0 && !lex_lt(k, name_key(s[0])) {
        let t = s.drop_first();
        lemma_first_after_props(t, k);
        assert forall|i: int| 0 <= i < first_after(s, k) implies !lex_lt(k, #[trigger] name_key(s[i])) by {
            if i > 0 {
                assert(s[i] == t[i - 1]);
            }
        }
        if first_after(s, k) < s.len() {
            assert(s[first_after(s, k)] == t[first_after(t, k)]);
        }
    }
}

proof fn lemma_insert_keeps_sorted(s: Seq<EntryModel>, x: EntryModel)
    requires
        names_sorted(s),
    ensures
        names_sorted(s.insert(first_after(s, name_key(x)), x)),
{
    let k = name_key(x);
    let j = first_after(s, k);
    lemma_first_after_props(s, k);
    let t = s.insert(j, x);
    assert forall|a: int, b: int| 0 <= a < b < t.len() implies !lex_lt(
        #[trigger] name_key(t[b]),
        #[trigger] name_key(t[a]),
    ) by {
        if b < j {
            assert(t[a] == s[a] && t[b] == s[b]);
        } else if b == j {
            assert(t[a] == s[a] && t[b] == x);
        } else if a < j {
            assert(t[a] == s[a] && t[b] == s[b - 1]);
        } else if a == j {
            assert(t[a] == x && t[b] == s[b - 1]);
            let y = name_key(s[b - 1]);
            let z = name_key(s[j]);
            if lex_lt(y, k) {
                lemma_lex_trans(y, k, z);
                if b - 1 == j {
                    lemma_lex_irrefl(z);
                }
            }
        } else {
            assert(t[a] == s[a - 1] && t[b] == s[b - 1]);
        }
    }
}

proof fn lemma_sort_props(s: Seq<EntryModel>)
    ensures
        names_sorted(sort_by_name(s)),
        sort_by_name(s).to_multiset() == s.to_multiset(),
        sort_by_name(s).len() == s.len(),
    decreases s.len(),
{
    broadcast use vstd::seq_lib::to_multiset_insert, vstd::seq_lib::to_multiset_build, vstd::seq_lib::to_multiset_len;

    if s.len() > 0 {
        let r = sort_by_name(s.drop_last());
        lemma_sort_props(s.drop_last());
        lemma_insert_keeps_sorted(r, s.last());
        lemma_first_after_props(r, name_key(s.last()));
        assert(s.drop_last().push(s.last()) =~= s);
    }
}

proof fn lemma_group_contains(items: Seq<DirItemModel>, show_hidden: bool, filter: Seq<Seq<char>>, dirs: bool, e: EntryModel)
    ensures
        group(items, show_hidden, filter, dirs).contains(e) <==> exists|i: int|
            0 <= i < items.len() && is_listed(#[trigger] items[i], show_hidden, filter) && items[i].is_dir == dirs
                && e == entry_of(items[i]),
    decreases items.len(),
{
    if items.len() > 0 {
        let init = items.drop_last();
        lemma_group_contains(init, show_hidden, filter, dirs, e);
        let g = group(items, show_hidden, filter, dirs);
        let gi = group(init, show_hidden, filter, dirs);
        if exists|i: int|
            0 <= i < items.len() && is_listed(#[trigger] items[i], show_hidden, filter) && items[i].is_dir == dirs
                && e == entry_of(items[i]) {
            let i = choose|i: int|
                0 <= i < items.len() && is_listed(#[trigger] items[i], show_hidden, filter) && items[i].is_dir
                    == dirs && e == entry_of(items[i]);
            if i == items.len() - 1 {
                assert(g[g.len() - 1] == e);
            } else {
                assert(init[i] == items[i]);
                let gj = choose|j: int| 0 <= j < gi.len() && gi[j] == e;
                assert(g[gj] == e);
            }
        }
        if g.contains(e) {
            let gj = choose|j: int| 0 <= j < g.len() && g[j] == e;
            if gj < gi.len() {
                assert(gi[gj] == e);
                let i = choose|i: int|
                    0 <= i < init.len() && is_listed(#[trigger] init[i], show_hidden, filter) && init[i].is_dir
                        == dirs && e == entry_of(init[i]);
                assert(items[i] == init[i]);
            } else {
                assert(items[items.len() - 1] == items.last());
            }
        }
    }
}

/// The browser list holds exactly the listed items (each once per listing
/// entry): every directory comes before every file, and within each group the
/// entries are sorted by lower-cased name.
pub proof fn law_listing_order(items: Seq<DirItemModel>, show_hidden: bool, filter: Seq<Seq<char>>)
    ensures
        ({
            let l = load_entries(items, show_hidden, filter);
            &&& forall|i: int, j: int| 0 <= i < j < l.len() && (#[trigger] l[j]).is_dir ==> (#[trigger] l[i]).is_dir
            &&& forall|i: int, j: int|
                0 <= i < j < l.len() && l[i].is_dir == l[j].is_dir ==> !lex_lt(
                    name_key(#[trigger] l[j]),
                    name_key(#[trigger] l[i]),
                )
            &&& l.to_multiset() == group(items, show_hidden, filter, true).to_multiset().add(
                group(items, show_hidden, filter, false).to_multiset(),
            )
            &&& forall|e: EntryModel|
                l.contains(e) <==> exists|i: int|
                    0 <= i < items.len() && is_listed(#[trigger] items[i], show_hidden, filter) && e == entry_of(
                        items[i],
                    )
        }),
{
    broadcast use vstd::seq_lib::to_multiset_contains, vstd::seq_lib::lemma_multiset_commutative;

    let gd = group(items, show_hidden, filter, true);
    let gf = group(items, show_hidden, filter, false);
    let a = sort_by_name(gd);
    let b = sort_by_name(gf);
    let l = a + b;
    lemma_sort_props(gd);
    lemma_sort_props(gf);
    vstd::seq_lib::lemma_multiset_commutative(a, b);
    assert forall|i: int| 0 <= i < a.len() implies (#[trigger] a[i]).is_dir by {
        assert(a.to_multiset().contains(a[i]));
        assert(gd.contains(a[i]));
        lemma_group_contains(items, show_hidden, filter, true, a[i]);
    }
    assert forall|i: int| 0 <= i < b.len() implies !(#[trigger] b[i]).is_dir by {
        assert(b.to_multiset().contains(b[i]));
        assert(gf.contains(b[i]));
        lemma_group_contains(items, show_hidden, filter, false, b[i]);
    }
    assert forall|i: int, j: int| 0 <= i < j < l.len() && (#[trigger] l[j]).is_dir implies (#[trigger] l[i]).is_dir by {
        if j >= a.len() {
            assert(l[j] == b[j - a.len()]);
        } else {
            assert(l[i] == a[i]);
        }
    }
    assert forall|i: int, j: int|
        0 <= i < j < l.len() && l[i].is_dir == l[j].is_dir implies !lex_lt(
        name_key(#[trigger] l[j]),
        name_key(#[trigger] l[i]),
    ) by {
        if j < a.len() {
            assert(l[i] == a[i] && l[j] == a[j]);
        } else if i >= a.len() {
            assert(l[i] == b[i - a.len()] && l[j] == b[j - a.len()]);
        } else {
            assert(l[i] == a[i] && l[j] == b[j - a.len()]);
        }
    }
    assert forall|e: EntryModel|
        l.contains(e) <==> exists|i: int|
            0 <= i < items.len() && is_listed(#[trigger] items[i], show_hidden, filter) && e == entry_of(
                items[i],
            ) by {
        lemma_group_contains(items, show_hidden, filter, true, e);
        lemma_group_contains(items, show_hidden, filter, false, e);
        assert(l.to_multiset().count(e) == a.to_multiset().count(e) + b.to_multiset().count(e));
        if exists|i: int|
            0 <= i < items.len() && is_listed(#[trigger] items[i], show_hidden, filter) && e == entry_of(
                items[i],
            ) {
            let i = choose|i: int|
                0 <= i < items.len() && is_listed(#[trigger] items[i], show_hidden, filter) && e == entry_of(
                    items[i],
                );
            assert(items[i].is_dir == true || items[i].is_dir == false);
        }
    }
}

/// Within each group of the browser list, entries with ASCII names come in
/// case-insensitive order: comparing their names with `A`–`Z` lower-cased,
/// a later one never sorts before an earlier one.  The key facts it needs
/// are those `FileExplorer::new` and `reload` state of the list they build.
pub proof fn law_ascii_listing_order(items: Seq<DirItemModel>, show_hidden: bool, filter: Seq<Seq<char>>)
    requires
        ascii_keys_known(load_entries(items, show_hidden, filter)),
    ensures
        ({
            let l = load_entries(items, show_hidden, filter);
            forall|i: int, j: int|
                0 <= i < j < l.len() && l[i].is_dir == l[j].is_dir && is_ascii_text(l[i].name) && is_ascii_text(
                    l[j].name,
                ) ==> !lex_lt(
                    (#[trigger] l[j]).name.map_values(|c: char| crate::text::ascii_lower(c)),
                    (#[trigger] l[i]).name.map_values(|c: char| crate::text::ascii_lower(c)),
                )
        }),
{
    law_listing_order(items, show_hidden, filter);
    let l = load_entries(items, show_hidden, filter);
    assert forall|i: int, j: int|
        0 <= i < j < l.len() && l[i].is_dir == l[j].is_dir && is_ascii_text(l[i].name) && is_ascii_text(
            l[j].name,
        ) implies !lex_lt(
        (#[trigger] l[j]).name.map_values(|c: char| crate::text::ascii_lower(c)),
        (#[trigger] l[i]).name.map_values(|c: char| crate::text::ascii_lower(c)),
    ) by {
        assert(name_key(l[i]) == l[i].name.map_values(|c: char| crate::text::ascii_lower(c)));
        assert(name_key(l[j]) == l[j].name.map_values(|c: char| crate::text::ascii_lower(c)));
        assert(!lex_lt(name_key(l[j]), name_key(l[i])));
    }
}

/// Reloading a listing that has not changed changes nothing more: a second
/// reload with the same listing leaves the browser as the first left it,
/// and neither moves to another directory or changes the filter or the
/// hidden-files setting.
pub proof fn law_reload_is_idempotent(m: ExplorerModel, items: Seq<DirItemModel>)
    ensures
        reloaded(reloaded(m, items), items) == reloaded(m, items),
        reloaded(m, items).current_dir == m.current_dir,
        reloaded(m, items).filter == m.filter,
        reloaded(m, items).show_hidden == m.show_hidden,
        reloaded(m, items).awaiting is None,
{
}

/// A key press keeps the cursor on the list: when the cursor was on an entry,
/// it still is after any key that needs no new listing; a key that needs one
/// either clamps the old index or puts the cursor at the top.
pub proof fn law_keys_keep_cursor_in_list(m: ExplorerModel, k: KeyPress)
    requires
        0 <= m.cursor < m.entries.len(),
        m.awaiting is None,
    ensures
        ({
            let n = explorer_step(m, k).0;
            &&& n.awaiting is None ==> 0 <= n.cursor < n.entries.len()
            &&& n.awaiting matches Some(a) ==> (a is Clamp || n.cursor == 0)
        }),
{
}

/// When an awaited listing arrives, the cursor lands on the list (if the
/// list is not empty).
pub proof fn law_listing_arrival_keeps_cursor_in_list(m: ExplorerModel, items: Seq<DirItemModel>)
    requires
        m.awaiting matches Some(a) && (a is Clamp || m.cursor == 0),
        m.awaiting matches Some(AfterLoadModel::Clamp(w)) ==> w >= 0,
    ensures
        ({
            let n = reloaded(m, items);
            n.entries.len() > 0 ==> 0 <= n.cursor < n.entries.len()
        }),
{
    let n = reloaded(m, items);
    if let Some(AfterLoadModel::Focus(p)) = m.awaiting {
        lemma_position_of_path(n.entries, p);
    }
}

proof fn lemma_position_of_path(s: Seq<EntryModel>, p: Seq<char>)
    ensures
        position_of_path(s, p) matches Some(i) ==> 0 <= i < s.len() && s[i].path == p,
    decreases s.len(),
{
    if s.len() > 0 && s[0].path != p {
        lemma_position_of_path(s.drop_first(), p);
    }
}

/// A file is chosen only by confirming a highlighted, selectable file, and
/// the outcome holds that file's path.
pub proof fn law_selection_is_highlighted_file(m: ExplorerModel, k: KeyPress)
    requires
        m.cursor >= 0,
    ensures
        explorer_step(m, k).1 matches OutcomeModel::Selected(p) ==> {
            &&& explorer_action(k) == ExplorerAction::Confirm
            &&& 0 <= m.cursor < m.entries.len()
            &&& m.entries[m.cursor].path == p
            &&& selectable(m.filter, m.entries[m.cursor])
        },
{
}

} // verus!
