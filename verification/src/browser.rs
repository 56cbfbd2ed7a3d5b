//! Browsing the loop, scene and patch libraries.
//!
//! A browser holds a list of items, possibly separated by divisions, a
//! current (highlighted) item and a selected item.  Navigation never rests
//! on a division.

use vstd::prelude::*;
use crate::text::{
    push_char, push_str, push_decimal_u64, string_from, str_eq, decimal_nat, has_prefix, has_suffix,
    ascii_lower, starts_with, ends_with, ascii_lowercase,
};
use crate::paths::{path_file_name, path_file_stem, path_equal, file_name, file_stem, paths_equal};
use crate::event::Event;

verus! {

/// A point in time: seconds and nanoseconds since the Unix epoch.
#[derive(Debug, Clone, Copy, PartialEq, Eq)]
pub struct FileTime {
    pub secs: i64,
    pub nanos: u32,
}

impl FileTime {
    /// Nanoseconds since the epoch.
    pub open spec fn total_nanos(self) -> int {
        self.secs * 1_000_000_000 + self.nanos
    }

    pub fn from_secs(secs: i64) -> (t: FileTime)
        ensures
            t.secs == secs,
            t.nanos == 0,
    {
        FileTime { secs, nanos: 0 }
    }
}

/// A directory entry, as a file system reports it.
#[derive(Debug, Clone)]
pub struct BrowserFile {
    pub path: String,
    pub modified: Option<FileTime>,
    pub is_file: bool,
}

/// Plain value of a directory entry: path, time, whether it is a file.
pub type BrowserFileValue = (Seq<char>, Option<FileTime>, bool);

impl View for BrowserFile {
    type V = BrowserFileValue;

    open spec fn view(&self) -> BrowserFileValue {
        (self.path@, self.modified, self.is_file)
    }
}

/// The plain value of a listing, or of the error that took its place.
pub open spec fn listing_view(r: Result<Vec<BrowserFile>, String>) -> Result<Seq<BrowserFileValue>, Seq<char>> {
    match r {
        Ok(es) => Ok(es@.map_values(|e: BrowserFile| e@)),
        Err(e) => Err(e@),
    }
}

/// Source of directory listings for `Browser::scan_with`.  What is on
/// disk changes, so a listing is not a function of the directory: an
/// implementation may state, in `may_list`, which answers it can give for
/// a directory (any, unless it says more).
pub trait BrowserFileSystem {
    /// Whether `listing` is an answer this file system may give for
    /// `directory`.
    closed spec fn may_list(&self, directory: Seq<char>, listing: Result<Seq<BrowserFileValue>, Seq<char>>) -> bool {
        true
    }

    fn entries(&self, directory: &str) -> (r: Result<Vec<BrowserFile>, String>)
        ensures
            self.may_list(directory@, listing_view(r)),
    ;
}

/// Source of the current time for time-dependent browser behavior.
pub trait BrowserRuntime {
    fn now(&self) -> FileTime;
}

#[derive(Debug, Clone, Copy, PartialEq, Eq, Structural)]
pub enum BrowserItemType {
    Undefined,
    Loop,
    Scene,
    LoopTray,
    SceneTray,
    Patch,
    Division,
    Last,
}

/// An entry of a browser.
#[derive(Debug, Clone)]
pub struct BrowserItem {
    pub name: String,
    pub default_name: bool,
    pub item_type: BrowserItemType,
    pub match_id: Option<i32>,
    pub filename: Option<String>,
    pub modified: Option<FileTime>,
}

/// Plain value of a browser item.
pub type BrowserItemValue = (Seq<char>, bool, BrowserItemType, Option<i32>, Option<Seq<char>>, Option<FileTime>);

pub open spec fn opt_string_view(s: Option<String>) -> Option<Seq<char>> {
    match s {
        Some(t) => Some(t@),
        None => None,
    }
}

impl View for BrowserItem {
    type V = BrowserItemValue;

    open spec fn view(&self) -> BrowserItemValue {
        (self.name@, self.default_name, self.item_type, self.match_id, opt_string_view(self.filename), self.modified)
    }
}

/// The plain values of a list of items.
pub open spec fn items_view(items: Seq<BrowserItem>) -> Seq<BrowserItemValue> {
    items.map_values(|it: BrowserItem| it@)
}

/// The plain value of a division.
pub open spec fn division_value() -> BrowserItemValue {
    (Seq::empty(), true, BrowserItemType::Division, None, None, None)
}

/// Separator inserted between groups of browser entries.
#[derive(Debug, Clone, PartialEq, Eq)]
pub struct BrowserDivision;

impl BrowserDivision {
    pub fn item() -> (it: BrowserItem)
        ensures
            it.name@ == Seq::<char>::empty(),
            it.default_name,
            it.item_type == BrowserItemType::Division,
            it.match_id is None,
            it.filename is None,
            it.modified is None,
    {
        proof { reveal_strlit(""); }
        BrowserItem::new("", true, BrowserItemType::Division)
    }
}

impl BrowserItem {
    pub fn new(name: &str, default_name: bool, item_type: BrowserItemType) -> (it: BrowserItem)
        ensures
            it.name@ == name@,
            it.default_name == default_name,
            it.item_type == item_type,
            it.match_id is None,
            it.filename is None,
            it.modified is None,
    {
        BrowserItem {
            name: string_from(name),
            default_name,
            item_type,
            match_id: None,
            filename: None,
            modified: None,
        }
    }

    pub fn with_match_id(self, match_id: i32) -> (it: BrowserItem)
        ensures
            it == (BrowserItem { match_id: Some(match_id), ..self }),
    {
        let mut it = self;
        it.match_id = Some(match_id);
        it
    }
}

/// Optional times ordered as `Option` orders them: no time first.
pub open spec fn time_lt(a: Option<FileTime>, b: Option<FileTime>) -> bool {
    match (a, b) {
        (None, Some(_)) => true,
        (Some(x), Some(y)) => x.total_nanos() < y.total_nanos(),
        _ => false,
    }
}

/// Items of the same loop or scene kind are ordered newest first; every
/// other pair compares equal.
pub open spec fn item_before(left: BrowserItem, right: BrowserItem) -> bool {
    ((left.item_type == BrowserItemType::Loop && right.item_type == BrowserItemType::Loop) || (
    left.item_type == BrowserItemType::Scene && right.item_type == BrowserItemType::Scene))
        && time_lt(right.modified, left.modified)
}

/// Where a sorted insertion puts `item`: before the first entry that it
/// orders before, else at the end.
pub open spec fn insert_position(items: Seq<BrowserItem>, item: BrowserItem) -> int
    decreases items.len(),
{
    if items.len() == 0 {
        0
    } else if item_before(item, items[0]) {
        0
    } else {
        1 + insert_position(items.drop_first(), item)
    }
}

/// `items` sorted by inserting each entry in turn (a stable sort).
pub open spec fn insertion_sorted(items: Seq<BrowserItem>) -> Seq<BrowserItem>
    decreases items.len(),
{
    if items.len() == 0 {
        Seq::empty()
    } else {
        let rest = insertion_sorted(items.drop_last());
        rest.insert(insert_position(rest, items.last()), items.last())
    }
}

/// Index of the first item that is not a division.
pub open spec fn first_non_division(items: Seq<BrowserItem>) -> Option<usize>
    decreases items.len(),
{
    if items.len() == 0 {
        None
    } else if items[0].item_type != BrowserItemType::Division {
        Some(0)
    } else {
        match first_non_division(items.drop_first()) {
            Some(i) => Some((i + 1) as usize),
            None => None,
        }
    }
}

pub proof fn lemma_first_non_division(items: Seq<BrowserItem>)
    requires
        items.len() <= usize::MAX,
    ensures
        first_non_division(items) matches Some(i) ==> (i < items.len() && items[i as int].item_type
            != BrowserItemType::Division && forall|k: int|
            0 <= k < i ==> #[trigger] items[k].item_type == BrowserItemType::Division),
        first_non_division(items) is None ==> forall|k: int|
            0 <= k < items.len() ==> #[trigger] items[k].item_type == BrowserItemType::Division,
    decreases items.len(),
{
    if items.len() > 0 && items[0].item_type == BrowserItemType::Division {
        let t = items.drop_first();
        lemma_first_non_division(t);
        assert forall|k: int| 0 < k < items.len() implies items[k] == #[trigger] t[k - 1] by {}
        match first_non_division(t) {
            Some(j) => {
                assert(first_non_division(items) == Some((j + 1) as usize));
                assert forall|k: int| 0 <= k < j + 1 implies #[trigger] items[k].item_type
                    == BrowserItemType::Division by {
                    if k > 0 {
                        assert(items[k] == t[k - 1]);
                    }
                }
            },
            None => {
                assert forall|k: int| 0 <= k < items.len() implies #[trigger] items[k].item_type
                    == BrowserItemType::Division by {
                    if k > 0 {
                        assert(items[k] == t[k - 1]);
                    }
                }
            },
        }
    }
}

/// The item types that can be renamed.
pub open spec fn renamable(t: BrowserItemType) -> bool {
    t == BrowserItemType::Loop || t == BrowserItemType::Scene || t == BrowserItemType::LoopTray
        || t == BrowserItemType::SceneTray
}

/// Browser for loops, scenes or patches on disk.
pub struct Browser {
    pub browser_id: i32,
    pub items: Vec<BrowserItem>,
    pub path: String,
    pub item_type: BrowserItemType,
    pub current_index: Option<usize>,
    pub selected_index: Option<usize>,
    pub renaming: bool,
    pub last_browsed: bool,
}

impl Browser {
    pub fn new(path: &str, item_type: BrowserItemType) -> (b: Browser)
        ensures
            b.browser_id == 0,
            b.items@ == Seq::<BrowserItem>::empty(),
            b.path@ == path@,
            b.item_type == item_type,
            b.current_index is None,
            b.selected_index is None,
            !b.renaming,
            !b.last_browsed,
    {
        Self::with_id(0, path, item_type)
    }

    pub fn with_id(browser_id: i32, path: &str, item_type: BrowserItemType) -> (b: Browser)
        ensures
            b.browser_id == browser_id,
            b.items@ == Seq::<BrowserItem>::empty(),
            b.path@ == path@,
            b.item_type == item_type,
            b.current_index is None,
            b.selected_index is None,
            !b.renaming,
            !b.last_browsed,
    {
        Browser {
            browser_id,
            items: Vec::new(),
            path: string_from(path),
            item_type,
            current_index: None,
            selected_index: None,
            renaming: false,
            last_browsed: false,
        }
    }

    fn item_compare_before(left: &BrowserItem, right: &BrowserItem) -> (r: bool)
        ensures
            r == item_before(*left, *right),
    {
        let same = (left.item_type == BrowserItemType::Loop && right.item_type == BrowserItemType::Loop)
            || (left.item_type == BrowserItemType::Scene && right.item_type == BrowserItemType::Scene);
        if !same {
            return false;
        }
        match (right.modified, left.modified) {
            (None, Some(_)) => true,
            (Some(x), Some(y)) => (x.secs as i128) * 1_000_000_000 + (x.nanos as i128) < (y.secs as i128)
                * 1_000_000_000 + (y.nanos as i128),
            _ => false,
        }
    }

    /// Index at which a sorted insertion puts `item`.
    fn sorted_position(&self, item: &BrowserItem) -> (r: usize)
        ensures
            r == insert_position(self.items@, *item),
            r <= self.items@.len(),
    {
        let n = self.items.len();
        let mut i: usize = 0;
        assert(self.items@.skip(0) =~= self.items@);
        proof { lemma_insert_position_bound(self.items@, *item); }
        while i < n
            invariant
                i <= n,
                n == self.items@.len(),
                insert_position(self.items@, *item) == i + insert_position(self.items@.skip(i as int), *item),
                insert_position(self.items@.skip(i as int), *item) <= n - i,
            decreases n - i,
        {
            proof {
                assert(self.items@.skip(i as int)[0] == self.items@[i as int]);
                assert(self.items@.skip(i as int).drop_first() =~= self.items@.skip(i + 1));
            }
            if Self::item_compare_before(item, &self.items[i]) {
                return i;
            }
            proof {
                lemma_insert_position_bound(self.items@.skip(i + 1), *item);
            }
            i = i + 1;
        }
        i
    }

    /// Adds an item at the end, or at its sorted place; it becomes current
    /// when there was no current item.
    pub fn add_item(&mut self, item: BrowserItem, sort: bool)
        ensures
            final(self).items@ == old(self).items@.insert(
                if sort { insert_position(old(self).items@, item) } else { old(self).items@.len() as int },
                item,
            ),
            final(self).current_index == (match old(self).current_index {
                Some(c) => Some(c),
                None => Some(
                    (if sort { insert_position(old(self).items@, item) } else { old(self).items@.len() as int }) as usize,
                ),
            }),
            final(self).selected_index == old(self).selected_index,
            final(self).browser_id == old(self).browser_id,
            final(self).item_type == old(self).item_type,
            final(self).path == old(self).path,
            final(self).renaming == old(self).renaming,
            final(self).last_browsed == old(self).last_browsed,
    {
        proof { lemma_insert_position_bound(self.items@, item); }
        let position = if sort { self.sorted_position(&item) } else { self.items.len() };
        self.items.insert(position, item);
        if self.current_index.is_none() {
            self.current_index = Some(position);
        }
    }

    /// Removes the first item with `match_id`; the current index is kept
    /// inside the list.
    pub fn remove_item(&mut self, match_id: i32) -> (found: bool)
        ensures
            found == exists|k: int| 0 <= k < old(self).items@.len() && old(self).items@[k].match_id == Some(match_id),
            found ==> exists|k: int|
                0 <= k < old(self).items@.len() && old(self).items@[k].match_id == Some(match_id)
                    && (forall|j: int| 0 <= j < k ==> old(self).items@[j].match_id != Some(match_id))
                    && final(self).items@ == old(self).items@.remove(k),
            found ==> final(self).current_index == (match old(self).current_index {
                None => None,
                Some(c) => if final(self).items@.len() == 0 {
                    None
                } else {
                    Some(if c < final(self).items@.len() - 1 { c } else { (final(self).items@.len() - 1) as usize })
                },
            }),
            !found ==> final(self).items@ == old(self).items@ && final(self).current_index == old(self).current_index,
            final(self).selected_index == old(self).selected_index,
            final(self).item_type == old(self).item_type,
            final(self).browser_id == old(self).browser_id,
    {
        let n = self.items.len();
        let mut i: usize = 0;
        while i < n
            invariant
                i <= n,
                n == self.items@.len(),
                self.items@ == old(self).items@,
                self.current_index == old(self).current_index,
                self.selected_index == old(self).selected_index,
                self.item_type == old(self).item_type,
                self.browser_id == old(self).browser_id,
                forall|j: int| 0 <= j < i ==> self.items@[j].match_id != Some(match_id),
            decreases n - i,
        {
            let hit = match self.items[i].match_id {
                Some(m) => m == match_id,
                None => false,
            };
            if hit {
                self.items.remove(i);
                self.current_index = match self.current_index {
                    None => None,
                    Some(current) => {
                        if self.items.len() == 0 {
                            None
                        } else {
                            let last = self.items.len() - 1;
                            Some(if current < last { current } else { last })
                        }
                    },
                };
                return true;
            }
            i = i + 1;
        }
        false
    }

    pub fn get_item(&self, index: usize) -> (r: Option<&BrowserItem>)
        ensures
            r == (if index < self.items@.len() { Some(&self.items@[index as int]) } else { None }),
    {
        if index < self.items.len() {
            Some(&self.items[index])
        } else {
            None
        }
    }

    pub fn len(&self) -> (n: usize)
        ensures
            n == self.items@.len(),
    {
        self.items.len()
    }

    pub fn is_empty(&self) -> (r: bool)
        ensures
            r == (self.items@.len() == 0),
    {
        self.items.len() == 0
    }

    pub fn current_item(&self) -> (r: Option<&BrowserItem>)
        ensures
            r == (match self.current_index {
                Some(i) => if i < self.items@.len() { Some(&self.items@[i as int]) } else { None },
                None => None,
            }),
    {
        match self.current_index {
            Some(i) => self.get_item(i),
            None => None,
        }
    }

    pub fn selected_item(&self) -> (r: Option<&BrowserItem>)
        ensures
            r == (match self.selected_index {
                Some(i) => if i < self.items@.len() { Some(&self.items@[i as int]) } else { None },
                None => None,
            }),
    {
        match self.selected_index {
            Some(i) => self.get_item(i),
            None => None,
        }
    }

    fn first_non_division_index(&self) -> (r: Option<usize>)
        ensures
            r == first_non_division(self.items@),
    {
        let n = self.items.len();
        let mut i: usize = 0;
        while i < n
            invariant
                i <= n,
                n == self.items@.len(),
                forall|k: int| 0 <= k < i ==> self.items@[k].item_type == BrowserItemType::Division,
            decreases n - i,
        {
            if self.items[i].item_type != BrowserItemType::Division {
                proof { lemma_first_non_division_at(self.items@, i as int); }
                return Some(i);
            }
            i = i + 1;
        }
        proof { lemma_first_non_division_none(self.items@); }
        None
    }

    fn next_index(&self, idx: usize) -> (r: Option<usize>)
        ensures
            r == (if idx + 1 < self.items@.len() { Some((idx + 1) as usize) } else { None }),
    {
        if idx < self.items.len() && idx + 1 < self.items.len() {
            Some(idx + 1)
        } else {
            None
        }
    }

    fn prev_index(&self, idx: usize) -> (r: Option<usize>)
        ensures
            r == (if idx > 0 { Some((idx - 1) as usize) } else { None }),
    {
        if idx > 0 {
            Some(idx - 1)
        } else {
            None
        }
    }

    /// Makes the first item that is not a division current.
    pub fn move_to_beginning(&mut self)
        ensures
            final(self).current_index == first_non_division(old(self).items@),
            final(self).last_browsed == (first_non_division(old(self).items@) is Some),
            final(self).items == old(self).items,
            final(self).selected_index == old(self).selected_index,
            final(self).renaming == old(self).renaming,
    {
        self.current_index = self.first_non_division_index();
        self.last_browsed = self.current_index.is_some();
    }

    /// Selects the current item and returns it.
    pub fn select_current(&mut self) -> (r: Option<&BrowserItem>)
        ensures
            final(self).selected_index == old(self).current_index,
            final(self).items == old(self).items,
            final(self).current_index == old(self).current_index,
            r == (match old(self).current_index {
                Some(i) => if i < old(self).items@.len() { Some(&old(self).items@[i as int]) } else { None },
                None => None,
            }),
    {
        self.selected_index = self.current_index;
        self.selected_item()
    }

    /// Starts renaming the current item, when it is a loop or scene.
    pub fn begin_rename(&mut self) -> (r: bool)
        ensures
            match old(self).current_index {
                Some(i) if i < old(self).items@.len() => r == renamable(old(self).items@[i as int].item_type)
                    && final(self).renaming == r,
                _ => !r && final(self).renaming == old(self).renaming,
            },
            final(self).items == old(self).items,
            final(self).current_index == old(self).current_index,
            final(self).selected_index == old(self).selected_index,
            final(self).last_browsed == old(self).last_browsed,
            final(self).item_type == old(self).item_type,
            final(self).browser_id == old(self).browser_id,
    {
        let t = match self.current_item() {
            Some(item) => item.item_type,
            None => return false,
        };
        self.renaming = t == BrowserItemType::Loop || t == BrowserItemType::Scene || t
            == BrowserItemType::LoopTray || t == BrowserItemType::SceneTray;
        self.renaming
    }

    /// Records whether the browser shows a current item.
    pub fn item_browsed(&mut self) -> (r: bool)
        ensures
            r == (old(self).current_index is Some),
            final(self).last_browsed == r,
            final(self).items == old(self).items,
            final(self).current_index == old(self).current_index,
    {
        self.last_browsed = self.current_index.is_some();
        self.last_browsed
    }
}

pub proof fn lemma_insert_position_bound(items: Seq<BrowserItem>, item: BrowserItem)
    ensures
        0 <= insert_position(items, item) <= items.len(),
    decreases items.len(),
{
    if items.len() > 0 {
        lemma_insert_position_bound(items.drop_first(), item);
        assert(items.drop_first().len() == items.len() - 1);
    }
}

proof fn lemma_first_non_division_at(items: Seq<BrowserItem>, i: int)
    requires
        0 <= i < items.len(),
        items.len() <= usize::MAX,
        items[i].item_type != BrowserItemType::Division,
        forall|k: int| 0 <= k < i ==> items[k].item_type == BrowserItemType::Division,
    ensures
        first_non_division(items) == Some(i as usize),
    decreases i,
{
    if i > 0 {
        lemma_first_non_division_at(items.drop_first(), i - 1);
    }
}

proof fn lemma_first_non_division_none(items: Seq<BrowserItem>)
    requires
        forall|k: int| 0 <= k < items.len() ==> items[k].item_type == BrowserItemType::Division,
    ensures
        first_non_division(items) is None,
    decreases items.len(),
{
    if items.len() > 0 {
        lemma_first_non_division_none(items.drop_first());
    }
}

// ------------------------------------------------------------------
// Divisions and banks
// ------------------------------------------------------------------

/// Whole seconds from `next` to `current` (negative when `current` is
/// earlier), truncated toward zero and limited to `i64`.
pub open spec fn seconds_between(current: FileTime, next: FileTime) -> i64 {
    let d = current.total_nanos() - next.total_nanos();
    if d >= 0 {
        if d / 1_000_000_000 <= i64::MAX { (d / 1_000_000_000) as i64 } else { i64::MAX }
    } else {
        if (-d) / 1_000_000_000 <= i64::MAX { (-((-d) / 1_000_000_000)) as i64 } else { -i64::MAX as i64 }
    }
}

/// How much older `next` is than `current`, in seconds, for two items of
/// the same loop or scene kind that both have a time; zero otherwise.
pub open spec fn compare_delta(next: BrowserItemValue, current: BrowserItemValue) -> i64 {
    if ((next.2 == BrowserItemType::Loop && current.2 == BrowserItemType::Loop) || (next.2
        == BrowserItemType::Scene && current.2 == BrowserItemType::Scene)) && current.5 is Some
        && next.5 is Some {
        seconds_between(current.5.unwrap(), next.5.unwrap())
    } else {
        0
    }
}

/// A division goes between adjacent items unless they were saved within
/// `max_delta` seconds of each other and may stay together: both have
/// generated names, or one is already a division.
pub open spec fn needs_division(a: BrowserItemValue, b: BrowserItemValue, max_delta: i32) -> bool {
    let close = compare_delta(b, a) < max_delta as i64;
    let keep = (a.1 && b.1) || a.2 == BrowserItemType::Division || b.2 == BrowserItemType::Division;
    !(close && keep)
}

/// The items with divisions inserted where `needs_division` asks.
pub open spec fn with_divisions(s: Seq<BrowserItemValue>, max_delta: i32) -> Seq<BrowserItemValue>
    decreases s.len(),
{
    if s.len() <= 1 {
        s
    } else {
        seq![s[0]] + (if needs_division(s[0], s[1], max_delta) {
            seq![division_value()]
        } else {
            Seq::empty()
        }) + with_divisions(s.drop_first(), max_delta)
    }
}

/// Putting divisions into a list goes pair by pair: the list splits after
/// any item into the two parts with their divisions, and between them
/// the division that pair asks for.
pub proof fn lemma_with_divisions_split(s: Seq<BrowserItemValue>, i: int, max_delta: i32)
    requires
        0 <= i < s.len() - 1,
    ensures
        with_divisions(s, max_delta) == with_divisions(s.take(i + 1), max_delta) + (if needs_division(
            s[i],
            s[i + 1],
            max_delta,
        ) {
            seq![division_value()]
        } else {
            Seq::empty()
        }) + with_divisions(s.skip(i + 1), max_delta),
    decreases i,
{
    if i == 0 {
        assert(s.take(1) =~= seq![s[0]]);
        assert(s.skip(1) =~= s.drop_first());
    } else {
        let t = s.drop_first();
        lemma_with_divisions_split(t, i - 1, max_delta);
        assert(s.take(i + 1).drop_first() =~= t.take(i));
        assert(s.take(i + 1)[0] == s[0] && s.take(i + 1)[1] == s[1]);
        assert(t.skip(i) =~= s.skip(i + 1));
        assert(t[i - 1] == s[i] && t[i] == s[i + 1]);
    }
}

/// Law: two adjacent loops (or two adjacent scenes) saved at least
/// `max_delta` seconds apart get a division between them, whatever their
/// names.
pub proof fn law_far_apart_items_are_divided(s: Seq<BrowserItemValue>, i: int, max_delta: i32)
    requires
        0 <= i < s.len() - 1,
        max_delta >= 0,
        (s[i].2 == BrowserItemType::Loop && s[i + 1].2 == BrowserItemType::Loop) || (s[i].2 == BrowserItemType::Scene
            && s[i + 1].2 == BrowserItemType::Scene),
        s[i].5 is Some && s[i + 1].5 is Some,
        s[i].5.unwrap().total_nanos() - s[i + 1].5.unwrap().total_nanos() >= max_delta * 1_000_000_000,
    ensures
        with_divisions(s, max_delta) == with_divisions(s.take(i + 1), max_delta) + seq![division_value()]
            + with_divisions(s.skip(i + 1), max_delta),
{
    lemma_with_divisions_split(s, i, max_delta);
    let d = s[i].5.unwrap().total_nanos() - s[i + 1].5.unwrap().total_nanos();
    assert(d / 1_000_000_000 >= max_delta) by (nonlinear_arith)
        requires
            d >= max_delta * 1_000_000_000,
            max_delta >= 0,
    ;
    assert(compare_delta(s[i + 1], s[i]) >= max_delta);
}

/// Law: two adjacent loops with generated names, saved less than
/// `max_delta` seconds apart (the later one first), stay together.
pub proof fn law_close_generated_loops_stay_together(s: Seq<BrowserItemValue>, i: int, max_delta: i32)
    requires
        0 <= i < s.len() - 1,
        s[i].2 == BrowserItemType::Loop && s[i + 1].2 == BrowserItemType::Loop,
        s[i].1 && s[i + 1].1,
        s[i].5 is Some && s[i + 1].5 is Some,
        0 <= s[i].5.unwrap().total_nanos() - s[i + 1].5.unwrap().total_nanos() < max_delta * 1_000_000_000,
    ensures
        with_divisions(s, max_delta) == with_divisions(s.take(i + 1), max_delta) + with_divisions(
            s.skip(i + 1),
            max_delta,
        ),
{
    lemma_with_divisions_split(s, i, max_delta);
    let d = s[i].5.unwrap().total_nanos() - s[i + 1].5.unwrap().total_nanos();
    assert(d / 1_000_000_000 < max_delta) by (nonlinear_arith)
        requires
            0 <= d < max_delta * 1_000_000_000,
    ;
    assert(compare_delta(s[i + 1], s[i]) < max_delta);
    assert(Seq::<BrowserItemValue>::empty() + with_divisions(s.skip(i + 1), max_delta) =~= with_divisions(
        s.skip(i + 1),
        max_delta,
    ));
    assert(with_divisions(s.take(i + 1), max_delta) + Seq::<BrowserItemValue>::empty() =~= with_divisions(
        s.take(i + 1),
        max_delta,
    ));
}

/// Law: an item with a name given by the user is set apart by divisions
/// from its neighbours (other than divisions), however close in time.
pub proof fn law_user_named_items_are_divided(s: Seq<BrowserItemValue>, i: int, max_delta: i32)
    requires
        0 <= i < s.len() - 1,
        !s[i].1 || !s[i + 1].1,
        s[i].2 != BrowserItemType::Division && s[i + 1].2 != BrowserItemType::Division,
    ensures
        with_divisions(s, max_delta) == with_divisions(s.take(i + 1), max_delta) + seq![division_value()]
            + with_divisions(s.skip(i + 1), max_delta),
{
    lemma_with_divisions_split(s, i, max_delta);
}

/// Law: a division is never put next to a division that is already there
/// when the two are close (a division has no time, so it is always close
/// for a positive `max_delta`).
pub proof fn law_no_division_beside_a_division(s: Seq<BrowserItemValue>, i: int, max_delta: i32)
    requires
        0 <= i < s.len() - 1,
        max_delta > 0,
        s[i].2 == BrowserItemType::Division || s[i + 1].2 == BrowserItemType::Division,
    ensures
        with_divisions(s, max_delta) == with_divisions(s.take(i + 1), max_delta) + with_divisions(
            s.skip(i + 1),
            max_delta,
        ),
{
    lemma_with_divisions_split(s, i, max_delta);
    assert(Seq::<BrowserItemValue>::empty() + with_divisions(s.skip(i + 1), max_delta) =~= with_divisions(
        s.skip(i + 1),
        max_delta,
    ));
    assert(with_divisions(s.take(i + 1), max_delta) + Seq::<BrowserItemValue>::empty() =~= with_divisions(
        s.take(i + 1),
        max_delta,
    ));
}

fn time_nanos(t: FileTime) -> (r: i128)
    ensures
        r == t.total_nanos(),
{
    (t.secs as i128) * 1_000_000_000 + (t.nanos as i128)
}

/// Index of the first division after `i`.
pub open spec fn next_division_after(items: Seq<BrowserItemValue>, i: int) -> Option<int>
    decreases items.len() - i,
{
    if i + 1 >= items.len() {
        None
    } else if items[i + 1].2 == BrowserItemType::Division {
        Some(i + 1)
    } else {
        next_division_after(items, i + 1)
    }
}

/// Index of the last division before `i`.
pub open spec fn prev_division_before(items: Seq<BrowserItemValue>, i: int) -> Option<int>
    decreases i,
{
    if i <= 0 {
        None
    } else if items[i - 1].2 == BrowserItemType::Division {
        Some(i - 1)
    } else {
        prev_division_before(items, i - 1)
    }
}

/// Where a bank step from `cur` lands: forward, the item after the next
/// division; backward, the item before the previous division.
pub open spec fn bank_step(items: Seq<BrowserItemValue>, cur: int, forward: bool) -> Option<int> {
    if forward {
        match next_division_after(items, cur) {
            Some(j) => if j + 1 < items.len() { Some(j + 1) } else { None },
            None => None,
        }
    } else {
        match prev_division_before(items, cur) {
            Some(j) => if j >= 1 { Some(j - 1) } else { None },
            None => None,
        }
    }
}

/// Number of divisions among the first `k` items.
pub open spec fn divisions_before(items: Seq<BrowserItemValue>, k: int) -> nat
    decreases k,
{
    if k <= 0 {
        0
    } else {
        divisions_before(items, k - 1) + (if items[k - 1].2 == BrowserItemType::Division { 1nat } else { 0nat })
    }
}

/// The first item at or after `k` that is not a division and has `bank`
/// divisions before it.
pub open spec fn first_of_bank_from(items: Seq<BrowserItemValue>, k: int, bank: int) -> Option<int>
    decreases items.len() - k,
{
    if k < 0 || k >= items.len() {
        None
    } else if items[k].2 != BrowserItemType::Division && divisions_before(items, k) == bank {
        Some(k)
    } else {
        first_of_bank_from(items, k + 1, bank)
    }
}

impl Browser {
    fn time_compare_delta(next: &BrowserItem, current: &BrowserItem) -> (r: i64)
        ensures
            r == compare_delta(next@, current@),
    {
        let same = (next.item_type == BrowserItemType::Loop && current.item_type == BrowserItemType::Loop)
            || (next.item_type == BrowserItemType::Scene && current.item_type == BrowserItemType::Scene);
        if !same {
            return 0;
        }
        match (current.modified, next.modified) {
            (Some(c), Some(n)) => {
                let d = time_nanos(c) - time_nanos(n);
                if d >= 0 {
                    let q = d / 1_000_000_000;
                    if q <= 9223372036854775807i128 { q as i64 } else { i64::MAX }
                } else {
                    let q = (-d) / 1_000_000_000;
                    if q <= 9223372036854775807i128 { -(q as i64) } else { -i64::MAX }
                }
            },
            _ => 0,
        }
    }

    /// Inserts a division between adjacent items that were not saved close
    /// together (within `max_delta` seconds) or that carry a user-given name.
    pub fn add_divisions(&mut self, max_delta: i32)
        ensures
            items_view(final(self).items@) == with_divisions(items_view(old(self).items@), max_delta),
            final(self).current_index == old(self).current_index,
            final(self).selected_index == old(self).selected_index,
            final(self).item_type == old(self).item_type,
    {
        let ghost orig = items_view(self.items@);
        let n0 = self.items.len();
        let ghost mut done: Seq<BrowserItemValue> = Seq::empty();
        let mut index: usize = 0;
        let mut src: usize = 0;
        assert(orig.skip(0) =~= orig);
        while self.items.len() > 0 && index < self.items.len() - 1
            invariant
                src <= orig.len(),
                orig.len() == n0,
                index == done.len(),
                self.items@.len() == done.len() + orig.len() - src,
                items_view(self.items@) == done + orig.skip(src as int),
                with_divisions(orig, max_delta) == done + with_divisions(orig.skip(src as int), max_delta),
                self.current_index == old(self).current_index,
                self.selected_index == old(self).selected_index,
                self.item_type == old(self).item_type,
            decreases orig.len() - src,
        {
            let ghost s0 = orig.skip(src as int);
            assert(s0.len() >= 2);
            assert(self.items@[index as int]@ == s0[0]) by {
                assert(items_view(self.items@)[index as int] == s0[0]);
            }
            assert(self.items@[index + 1]@ == s0[1]) by {
                assert(items_view(self.items@)[index + 1] == s0[1]);
            }
            assert(s0.drop_first() =~= orig.skip(src + 1));
            let delta = Self::time_compare_delta(&self.items[index + 1], &self.items[index]);
            let close = delta < max_delta as i64;
            let keep = (self.items[index].default_name && self.items[index + 1].default_name)
                || self.items[index].item_type == BrowserItemType::Division
                || self.items[index + 1].item_type == BrowserItemType::Division;
            if close && keep {
                proof {
                    done = done.push(s0[0]);
                    assert(items_view(self.items@) =~= done + orig.skip(src + 1));
                    assert(with_divisions(s0, max_delta) =~= seq![s0[0]] + with_divisions(s0.drop_first(), max_delta));
                    assert(with_divisions(orig, max_delta) =~= done + with_divisions(orig.skip(src + 1), max_delta));
                }
                index = index + 1;
                src = src + 1;
                continue;
            }
            let ghost before = self.items@;
            self.items.insert(index + 1, BrowserDivision::item());
            proof {
                assert(items_view(self.items@) =~= items_view(before).insert(index + 1, division_value()));
                done = done.push(s0[0]).push(division_value());
                assert(items_view(self.items@) =~= done + orig.skip(src + 1));
                assert(with_divisions(s0, max_delta) =~= seq![s0[0]] + seq![division_value()] + with_divisions(s0.drop_first(), max_delta));
                assert(with_divisions(orig, max_delta) =~= done + with_divisions(orig.skip(src + 1), max_delta));
            }
            index = index + 2;
            src = src + 1;
        }
        assert(orig.skip(src as int).len() <= 1);
        assert(with_divisions(orig, max_delta) =~= items_view(self.items@));
    }
}

impl Browser {
    /// Moves to the neighbouring bank of a patch browser: forward to the
    /// first patch after the next division, backward to the last patch
    /// before the previous division.  Without a current item the first
    /// patch becomes current first.
    pub fn move_patch_bank(&mut self, direction: i32) -> (moved: bool)
        requires
            direction < 0 ==> (old(self).current_index matches Some(c) ==> c <= old(self).items@.len()),
        ensures
            old(self).item_type != BrowserItemType::Patch || old(self).items@.len() == 0 ==> !moved
                && final(self).current_index == old(self).current_index
                && final(self).last_browsed == old(self).last_browsed,
            old(self).item_type == BrowserItemType::Patch && old(self).items@.len() > 0 ==> {
                let start = match old(self).current_index {
                    Some(c) => Some(c),
                    None => first_non_division(old(self).items@),
                };
                match start {
                    None => !moved && final(self).current_index is None && final(self).last_browsed
                        == old(self).last_browsed,
                    Some(c) => match bank_step(items_view(old(self).items@), c as int, direction >= 0) {
                        Some(t) => moved && final(self).current_index == Some(t as usize)
                            && final(self).last_browsed,
                        None => !moved && final(self).current_index == Some(c)
                            && final(self).last_browsed == old(self).last_browsed,
                    },
                }
            },
            final(self).items == old(self).items,
            final(self).selected_index == old(self).selected_index,
            final(self).item_type == old(self).item_type,
    {
        if self.item_type != BrowserItemType::Patch || self.items.len() == 0 {
            return false;
        }
        if self.current_index.is_none() {
            self.current_index = self.first_non_division_index();
            proof { lemma_first_non_division(self.items@); }
        }
        let cur = match self.current_index {
            Some(c) => c,
            None => return false,
        };
        let forward = direction >= 0;
        let probe = if forward {
            match self.next_division_index(cur) {
                Some(j) => if j < self.items.len() - 1 { Some(j + 1) } else { None },
                None => None,
            }
        } else {
            match self.prev_division_index(cur) {
                Some(j) => if j >= 1 { Some(j - 1) } else { None },
                None => None,
            }
        };
        match probe {
            Some(t) => {
                self.current_index = Some(t);
                self.last_browsed = true;
                true
            },
            None => false,
        }
    }

    /// Makes the first patch of bank `target` current (banks are counted
    /// by the divisions before them).
    pub fn move_patch_bank_to_index(&mut self, target: i32) -> (moved: bool)
        ensures
            (old(self).item_type == BrowserItemType::Patch && old(self).items@.len() > 0 && target >= 0
                && first_of_bank_from(items_view(old(self).items@), 0, target as int) is Some) ==> moved
                && final(self).current_index == Some(
                first_of_bank_from(items_view(old(self).items@), 0, target as int).unwrap() as usize,
            ) && final(self).last_browsed,
            !(old(self).item_type == BrowserItemType::Patch && old(self).items@.len() > 0 && target >= 0
                && first_of_bank_from(items_view(old(self).items@), 0, target as int) is Some) ==> !moved
                && final(self).current_index == old(self).current_index && final(self).last_browsed
                == old(self).last_browsed,
            final(self).items == old(self).items,
            final(self).selected_index == old(self).selected_index,
            final(self).item_type == old(self).item_type,
    {
        if self.item_type != BrowserItemType::Patch || self.items.len() == 0 {
            return false;
        }
        if target < 0 {
            return false;
        }
        let ghost v = items_view(self.items@);
        let ghost t = target as int;
        let n = self.items.len();
        assert(v.len() == n);
        let mut bank_index: usize = 0;
        let mut first_patch_in_bank: Option<usize> = None;
        let mut idx: usize = 0;
        while idx < n
            invariant
                idx <= n,
                n == self.items@.len(),
                v == items_view(self.items@),
                v.len() == n,
                t == target,
                target >= 0,
                bank_index == divisions_before(v, idx as int),
                bank_index <= idx,
                first_of_bank_from(v, 0, t) == first_of_bank_from(v, idx as int, t),
                first_patch_in_bank is Some ==> bank_index != t,
                self.current_index == old(self).current_index,
                self.last_browsed == old(self).last_browsed,
                self.items == old(self).items,
                self.selected_index == old(self).selected_index,
                self.item_type == old(self).item_type,
                self.item_type == BrowserItemType::Patch,
                old(self).items@.len() > 0,
            decreases n - idx,
        {
            proof { assert(v[idx as int] == self.items@[idx as int]@); }
            if self.items[idx].item_type == BrowserItemType::Division {
                bank_index = bank_index + 1;
                first_patch_in_bank = None;
            } else if first_patch_in_bank.is_none() {
                first_patch_in_bank = Some(idx);
                if bank_index == target as usize {
                    self.current_index = Some(idx);
                    self.last_browsed = true;
                    return true;
                }
            }
            idx = idx + 1;
        }
        false
    }
}

impl Browser {
    /// Index of the first division after `cur`.
    fn next_division_index(&self, cur: usize) -> (r: Option<usize>)
        ensures
            match r {
                Some(j) => next_division_after(items_view(self.items@), cur as int) == Some(j as int)
                    && j < self.items@.len(),
                None => next_division_after(items_view(self.items@), cur as int) is None,
            },
    {
        let ghost v = items_view(self.items@);
        let n = self.items.len();
        assert(v.len() == n);
        if n == 0 || cur >= n - 1 {
            return None;
        }
        let mut idx = cur;
        while idx < n - 1
            invariant
                n == self.items@.len(),
                n > 0,
                v == items_view(self.items@),
                v.len() == n,
                idx >= cur,
                next_division_after(v, cur as int) == next_division_after(v, idx as int),
            decreases n - idx,
        {
            assert(v[idx + 1] == self.items@[idx + 1]@);
            if self.items[idx + 1].item_type == BrowserItemType::Division {
                return Some(idx + 1);
            }
            idx = idx + 1;
        }
        None
    }

    /// Index of the last division before `cur`.
    fn prev_division_index(&self, cur: usize) -> (r: Option<usize>)
        requires
            cur <= self.items@.len(),
        ensures
            match r {
                Some(j) => prev_division_before(items_view(self.items@), cur as int) == Some(j as int)
                    && j < cur,
                None => prev_division_before(items_view(self.items@), cur as int) is None,
            },
    {
        let ghost v = items_view(self.items@);
        let n = self.items.len();
        assert(v.len() == n);
        let mut idx = cur;
        while idx > 0
            invariant
                n == self.items@.len(),
                v == items_view(self.items@),
                v.len() == n,
                idx <= cur,
                cur <= n,
                prev_division_before(v, cur as int) == prev_division_before(v, idx as int),
            decreases idx,
        {
            assert(v[idx - 1] == self.items@[idx - 1]@);
            if self.items[idx - 1].item_type == BrowserItemType::Division {
                return Some(idx - 1);
            }
            idx = idx - 1;
        }
        None
    }
}

// ------------------------------------------------------------------
// Moving through the list
// ------------------------------------------------------------------

/// Where one jump step from `cur` lands before falling back: forward, the
/// item after the next division; backward, the item before the previous
/// division, or on the last step the item after it.
pub open spec fn jump_probe(v: Seq<BrowserItemValue>, cur: int, forward: bool, last: bool) -> Option<int> {
    if forward {
        match next_division_after(v, cur) {
            Some(d) => if d + 1 < v.len() { Some(d + 1) } else { None },
            None => None,
        }
    } else {
        match prev_division_before(v, cur) {
            Some(d) => if last {
                if d + 1 < v.len() { Some(d + 1) } else { None }
            } else {
                if d >= 1 { Some(d - 1) } else { None }
            },
            None => None,
        }
    }
}

/// One jump step: the probe, else (backward, on the last step) the first
/// item that is not a division, else where the step started.
pub open spec fn jump_one(v: Seq<BrowserItemValue>, cur: int, forward: bool, last: bool, first: Option<usize>) -> int {
    match jump_probe(v, cur, forward, last) {
        Some(i) => i,
        None => if !forward && last {
            match first {
                Some(f) => f as int,
                None => cur,
            }
        } else {
            cur
        },
    }
}

/// `steps` jump steps from `cur`.
pub open spec fn jump_from(v: Seq<BrowserItemValue>, cur: int, forward: bool, steps: nat, first: Option<usize>) -> int
    decreases steps,
{
    if steps == 0 {
        cur
    } else {
        jump_from(v, jump_one(v, cur, forward, steps == 1, first), forward, (steps - 1) as nat, first)
    }
}

/// Number of jump steps for a jump of `j` banks: one more when going back,
/// as the first step back only reaches the start of the current bank.
pub open spec fn jump_steps(j: i32) -> nat {
    if j == 0 {
        0
    } else if j > 0 {
        j as nat
    } else {
        (-j + 1) as nat
    }
}

/// Walk from `cur` in one direction until `count` items that are not
/// divisions have been passed, or the end of the list.
pub open spec fn walk_items(v: Seq<BrowserItemValue>, cur: int, forward: bool, count: nat) -> int
    decreases (if forward { v.len() - cur } else { cur }), count,
{
    if count == 0 {
        cur
    } else {
        let nx = if forward { cur + 1 } else { cur - 1 };
        if nx < 0 || nx >= v.len() || !(0 <= cur < v.len()) {
            cur
        } else if v[nx].2 == BrowserItemType::Division {
            walk_items(v, nx, forward, count)
        } else {
            walk_items(v, nx, forward, (count - 1) as nat)
        }
    }
}

/// An optional index as an optional integer.
pub open spec fn opt_int(o: Option<usize>) -> Option<int> {
    match o {
        Some(i) => Some(i as int),
        None => None,
    }
}

/// Absolute value of an `i32`, as a natural number.
pub open spec fn abs_nat(x: i32) -> nat {
    if x >= 0 { x as nat } else { (-x) as nat }
}

/// The index that `move_to` makes current, from the starting index `c`:
/// first the jump across banks, then the walk over items; a division there
/// falls back to the first item that is not a division.
pub open spec fn move_target(v: Seq<BrowserItemValue>, c: int, adjust: i32, jumpadjust: i32, first: Option<usize>) -> Option<usize> {
    let j = jump_from(v, c, jumpadjust >= 0, jump_steps(jumpadjust), first);
    let a = if adjust == 0 { j } else { walk_items(v, j, adjust >= 0, abs_nat(adjust)) };
    if v[a].2 == BrowserItemType::Division {
        first
    } else {
        Some(a as usize)
    }
}

pub proof fn lemma_walk_items_in_range(v: Seq<BrowserItemValue>, cur: int, forward: bool, count: nat)
    requires
        0 <= cur < v.len(),
    ensures
        0 <= walk_items(v, cur, forward, count) < v.len(),
    decreases (if forward { v.len() - cur } else { cur }), count,
{
    if count > 0 {
        let nx = if forward { cur + 1 } else { cur - 1 };
        if !(nx < 0 || nx >= v.len()) {
            if v[nx].2 == BrowserItemType::Division {
                lemma_walk_items_in_range(v, nx, forward, count);
            } else {
                lemma_walk_items_in_range(v, nx, forward, (count - 1) as nat);
            }
        }
    }
}

impl Browser {
    /// One jump step from `cur`.
    fn jump_step(&self, cur: usize, forward: bool, last: bool, first: Option<usize>) -> (r: usize)
        requires
            cur < self.items@.len(),
            first matches Some(f) ==> f < self.items@.len(),
        ensures
            r == jump_one(items_view(self.items@), cur as int, forward, last, first),
            r < self.items@.len(),
    {
        let n = self.items.len();
        assert(items_view(self.items@).len() == n);
        let ghost v = items_view(self.items@);
        let probe = if forward {
            match self.next_division_index(cur) {
                Some(d) => {
                    assert(next_division_after(v, cur as int) == Some(d as int));
                    let p = self.next_index(d);
                    assert(opt_int(p) == jump_probe(v, cur as int, forward, last));
                    p
                },
                None => None,
            }
        } else {
            match self.prev_division_index(cur) {
                Some(d) => {
                    assert(prev_division_before(v, cur as int) == Some(d as int));
                    if last {
                        let p = self.next_index(d);
                        assert(opt_int(p) == jump_probe(v, cur as int, forward, last));
                        p
                    } else {
                        let p = self.prev_index(d);
                        assert(opt_int(p) == jump_probe(v, cur as int, forward, last));
                        p
                    }
                },
                None => None,
            }
        };
        assert(opt_int(probe) == jump_probe(v, cur as int, forward, last));
        match probe {
            Some(i) => i,
            None => if !forward && last {
                match first {
                    Some(f) => f,
                    None => cur,
                }
            } else {
                cur
            },
        }
    }

    /// Walks from `start` over `count` items that are not divisions.
    fn walk(&self, start: usize, forward: bool, count: u64) -> (r: usize)
        requires
            start < self.items@.len(),
        ensures
            r == walk_items(items_view(self.items@), start as int, forward, count as nat),
            r < self.items@.len(),
    {
        let ghost v = items_view(self.items@);
        let n = self.items.len();
        assert(v.len() == n);
        let mut cur = start;
        let mut moved: u64 = 0;
        while moved < count
            invariant
                n == self.items@.len(),
                v == items_view(self.items@),
                v.len() == n,
                cur < n,
                moved <= count,
                walk_items(v, start as int, forward, count as nat) == walk_items(
                    v,
                    cur as int,
                    forward,
                    (count - moved) as nat,
                ),
            decreases (if forward { n - cur } else { cur as int }), count - moved,
        {
            let next = if forward {
                self.next_index(cur)
            } else {
                self.prev_index(cur)
            };
            match next {
                None => {
                    return cur;
                },
                Some(ni) => {
                    assert(v[ni as int] == self.items@[ni as int]@);
                    cur = ni;
                    if self.items[cur].item_type != BrowserItemType::Division {
                        moved = moved + 1;
                    }
                },
            }
        }
        cur
    }

    /// Moves the current item: first `jumpadjust` banks (divisions) forward
    /// or back, then `adjust` items forward or back, never resting on a
    /// division.
    pub fn move_to(&mut self, adjust: i32, jumpadjust: i32)
        requires
            old(self).current_index matches Some(c) ==> c < old(self).items@.len(),
        ensures
            old(self).items@.len() == 0 ==> final(self).current_index is None
                && final(self).last_browsed == old(self).last_browsed,
            old(self).items@.len() > 0 ==> {
                let first = first_non_division(old(self).items@);
                let start = match old(self).current_index {
                    Some(c) => Some(c),
                    None => first,
                };
                match start {
                    None => final(self).current_index is None && final(self).last_browsed
                        == old(self).last_browsed,
                    Some(c) => final(self).current_index == move_target(
                        items_view(old(self).items@),
                        c as int,
                        adjust,
                        jumpadjust,
                        first,
                    ) && final(self).last_browsed == (final(self).current_index is Some),
                }
            },
            final(self).items == old(self).items,
            final(self).selected_index == old(self).selected_index,
            final(self).renaming == old(self).renaming,
            final(self).item_type == old(self).item_type,
    {
        if self.items.len() == 0 {
            self.current_index = None;
            return;
        }
        let ghost v = items_view(self.items@);
        let n = self.items.len();
        assert(v.len() == n);
        let first = self.first_non_division_index();
        proof { lemma_first_non_division(self.items@); }
        if self.current_index.is_none() {
            self.current_index = first;
        }
        let c = match self.current_index {
            Some(c) => c,
            None => return,
        };
        let mut cur = c;
        if jumpadjust != 0 {
            let forward = jumpadjust >= 0;
            let steps: u64 = if forward {
                jumpadjust as u64
            } else {
                (-(jumpadjust as i64)) as u64 + 1
            };
            assert(steps == jump_steps(jumpadjust));
            let mut step: u64 = 0;
            while step < steps
                invariant
                    n == self.items@.len(),
                    v == items_view(self.items@),
                    v.len() == n,
                    cur < n,
                    step <= steps,
                    first == first_non_division(self.items@),
                    first matches Some(f) ==> f < n,
                    jump_from(v, c as int, forward, steps as nat, first) == jump_from(
                        v,
                        cur as int,
                        forward,
                        (steps - step) as nat,
                        first,
                    ),
                decreases steps - step,
            {
                let last = step + 1 >= steps;
                cur = self.jump_step(cur, forward, last, first);
                step = step + 1;
            }
        }
        let ghost j = cur as int;
        if adjust != 0 {
            let forward = adjust >= 0;
            let count: u64 = if forward {
                adjust as u64
            } else {
                (-(adjust as i64)) as u64
            };
            cur = self.walk(cur, forward, count);
        }
        assert(v[cur as int] == self.items@[cur as int]@);
        if self.items[cur].item_type == BrowserItemType::Division {
            self.current_index = first;
        } else {
            self.current_index = Some(cur);
        }
        self.last_browsed = self.current_index.is_some();
    }
}

// ------------------------------------------------------------------
// Display names, scanning and renaming
// ------------------------------------------------------------------

/// The display name of a file and whether it was generated.
pub struct DisplayNameResult {
    pub name: String,
    pub used_default_name: bool,
}

/// Hooks for code that follows what a browser does.
pub trait BrowserCallback {
    fn item_browsed(&mut self, item: &BrowserItem);

    fn item_selected(&mut self, item: &BrowserItem);

    fn item_renamed(&mut self, item: &BrowserItem);
}

/// The file name prefix of saved loops and scenes.
pub open spec fn name_prefix(t: BrowserItemType) -> Seq<char> {
    match t {
        BrowserItemType::Loop => "loop-"@,
        BrowserItemType::Scene => "scene-"@,
        _ => ""@,
    }
}

/// Index of the first `-` in `s`.
pub open spec fn first_dash(s: Seq<char>) -> Option<int>
    decreases s.len(),
{
    if s.len() == 0 {
        None
    } else if s[0] == '-' {
        Some(0)
    } else {
        match first_dash(s.drop_first()) {
            Some(k) => Some(k + 1),
            None => None,
        }
    }
}

/// The time stamp shown for an unnamed file: whole seconds since the
/// epoch, or `unknown-time` when there is no time or it is before the
/// epoch.
pub open spec fn time_stamp(modified: Option<FileTime>) -> Seq<char> {
    match modified {
        Some(t) => if t.secs >= 0 { decimal_nat(t.secs as nat) } else { "unknown-time"@ },
        None => "unknown-time"@,
    }
}

/// The name shown for a file and whether it was generated.  A saved
/// `prefix-hash-name` shows `name`; one without a name shows the first two
/// characters of the hash and its time; anything else shows its stem.
pub open spec fn display_name(t: BrowserItemType, path: Seq<char>, modified: Option<FileTime>) -> (Seq<char>, bool) {
    let stem = match path_file_stem(path) {
        Some(st) => st,
        None => Seq::empty(),
    };
    let prefix = name_prefix(t);
    if has_prefix(stem, prefix) {
        let rest = stem.skip(prefix.len() as int);
        let (hash, name) = match first_dash(rest) {
            Some(k) => (rest.take(k), rest.skip(k + 1)),
            None => (rest, Seq::empty()),
        };
        if name.len() > 0 {
            (name, false)
        } else {
            let short = if hash.len() <= 2 { hash } else { hash.take(2) };
            (short + " "@ + time_stamp(modified), true)
        }
    } else {
        (stem, true)
    }
}

/// Whether a file name belongs in a browser of type `t`: loops by their
/// `loop-` prefix and audio extension (ignoring ASCII case), scenes by
/// their `scene-` prefix and `.xml` extension, patches by `.pat` or `.sf2`.
pub open spec fn matches_type(t: BrowserItemType, path: Seq<char>) -> bool {
    let f = match path_file_name(path) {
        Some(n) => n,
        None => Seq::empty(),
    };
    let lower = ascii_lower(f);
    match t {
        BrowserItemType::Loop => has_prefix(lower, "loop-"@) && (has_suffix(lower, ".wav"@) || has_suffix(
            lower,
            ".ogg"@,
        ) || has_suffix(lower, ".flac"@) || has_suffix(lower, ".au"@)),
        BrowserItemType::Scene => has_prefix(f, "scene-"@) && has_suffix(f, ".xml"@),
        BrowserItemType::Patch => has_suffix(f, ".pat"@) || has_suffix(f, ".sf2"@),
        _ => false,
    }
}

/// The item value that a scan makes of a matching file.
pub open spec fn scanned_value(t: BrowserItemType, e: BrowserFileValue) -> BrowserItemValue {
    let d = display_name(t, e.0, e.1);
    (d.0, d.1, t, None, Some(e.0), e.1)
}

/// The items that a scan makes of directory entries, in listing order.
pub open spec fn scan_values(t: BrowserItemType, es: Seq<BrowserFileValue>) -> Seq<BrowserItemValue>
    decreases es.len(),
{
    if es.len() == 0 {
        Seq::empty()
    } else {
        let rest = scan_values(t, es.drop_last());
        let e = es.last();
        if e.2 && matches_type(t, e.0) {
            rest.push(scanned_value(t, e))
        } else {
            rest
        }
    }
}

/// `item_before` on plain values.
pub open spec fn value_before(left: BrowserItemValue, right: BrowserItemValue) -> bool {
    ((left.2 == BrowserItemType::Loop && right.2 == BrowserItemType::Loop) || (left.2
        == BrowserItemType::Scene && right.2 == BrowserItemType::Scene)) && time_lt(right.5, left.5)
}

/// `insert_position` on plain values.
pub open spec fn value_insert_position(items: Seq<BrowserItemValue>, item: BrowserItemValue) -> int
    decreases items.len(),
{
    if items.len() == 0 {
        0
    } else if value_before(item, items[0]) {
        0
    } else {
        1 + value_insert_position(items.drop_first(), item)
    }
}

/// Plain values sorted newest first, stably (by inserting each in turn).
pub open spec fn sorted_values(s: Seq<BrowserItemValue>) -> Seq<BrowserItemValue>
    decreases s.len(),
{
    if s.len() == 0 {
        Seq::empty()
    } else {
        let rest = sorted_values(s.drop_last());
        rest.insert(value_insert_position(rest, s.last()), s.last())
    }
}

pub proof fn lemma_insert_position_value(items: Seq<BrowserItem>, item: BrowserItem)
    ensures
        insert_position(items, item) == value_insert_position(items_view(items), item@),
    decreases items.len(),
{
    if items.len() > 0 {
        assert(items_view(items)[0] == items[0]@);
        assert(items_view(items.drop_first()) =~= items_view(items).drop_first());
        lemma_insert_position_value(items.drop_first(), item);
    }
}

/// The error text of a scan whose directory could not be read.
pub open spec fn scan_error(path: Seq<char>, e: Seq<char>) -> Seq<char> {
    "Failed to read browser path '"@ + path + "': "@ + e
}

/// The value of an item after a rename to `n`: an empty name falls back
/// to the generated display name of its file.
pub open spec fn renamed_value(v: BrowserItemValue, n: Seq<char>, t: BrowserItemType) -> BrowserItemValue {
    if n.len() == 0 {
        match v.4 {
            Some(p) => (display_name(t, p, v.5).0, true, v.2, v.3, v.4, v.5),
            None => (n, true, v.2, v.3, v.4, v.5),
        }
    } else {
        (n, false, v.2, v.3, v.4, v.5)
    }
}

/// A copy of an optional string.
fn copy_opt_string(s: &Option<String>) -> (r: Option<String>)
    ensures
        opt_string_view(r) == opt_string_view(*s),
{
    match s {
        Some(t) => Some(string_from(t.as_str())),
        None => None,
    }
}

/// Index of the first item whose file is `p`.
pub open spec fn first_with_file(v: Seq<BrowserItemValue>, p: Seq<char>) -> Option<int>
    decreases v.len(),
{
    if v.len() == 0 {
        None
    } else if v[0].4 matches Some(f) && path_equal(f, p) {
        Some(0)
    } else {
        match first_with_file(v.drop_first(), p) {
            Some(k) => Some(k + 1),
            None => None,
        }
    }
}

fn first_dash_index(s: &str) -> (r: Option<usize>)
    ensures
        match r {
            Some(k) => first_dash(s@) == Some(k as int) && k < s@.len(),
            None => first_dash(s@) is None,
        },
{
    let n = s.unicode_len();
    let mut i: usize = 0;
    assert(s@.skip(0) =~= s@);
    while i < n
        invariant
            i <= n,
            n == s@.len(),
            first_dash(s@) == (match first_dash(s@.skip(i as int)) {
                Some(k) => Some(k + i),
                None => None,
            }),
        decreases n - i,
    {
        assert(s@.skip(i as int)[0] == s@[i as int]);
        assert(s@.skip(i as int).drop_first() =~= s@.skip(i + 1));
        if s.get_char(i) == '-' {
            return Some(i);
        }
        i = i + 1;
    }
    None
}

impl Browser {
    /// The name shown for the file at `path` and whether it was generated.
    fn display_name_for_path(&self, path: &str, modified: Option<FileTime>) -> (r: DisplayNameResult)
        ensures
            (r.name@, r.used_default_name) == display_name(self.item_type, path@, modified),
    {
        let stem = match file_stem(path) {
            Some(st) => st,
            None => String::new(),
        };
        let prefix: &str = match self.item_type {
            BrowserItemType::Loop => "loop-",
            BrowserItemType::Scene => "scene-",
            _ => "",
        };
        assert(prefix@ == name_prefix(self.item_type));
        let stem_str = stem.as_str();
        if starts_with(stem_str, prefix) {
            let n = stem_str.unicode_len();
            let plen = prefix.unicode_len();
            let rest = stem_str.substring_char(plen, n);
            assert(rest@ =~= stem@.skip(plen as int));
            let rlen = rest.unicode_len();
            let (hash, name) = match first_dash_index(rest) {
                Some(k) => (rest.substring_char(0, k), rest.substring_char(k + 1, rlen)),
                None => (rest, rest.substring_char(rlen, rlen)),
            };
            proof {
                match first_dash(rest@) {
                    Some(k) => {
                        assert(hash@ =~= rest@.take(k));
                        assert(name@ =~= rest@.skip(k + 1));
                    },
                    None => {
                        assert(name@ =~= Seq::<char>::empty());
                    },
                }
            }
            if name.unicode_len() > 0 {
                return DisplayNameResult { name: string_from(name), used_default_name: false };
            }
            let hlen = hash.unicode_len();
            let short = if hlen <= 2 {
                hash
            } else {
                hash.substring_char(0, 2)
            };
            assert(hlen > 2 ==> short@ =~= hash@.take(2));
            let mut out = string_from(short);
            push_str(&mut out, " ");
            match modified {
                Some(t) => {
                    if t.secs >= 0 {
                        push_decimal_u64(&mut out, t.secs as u64);
                    } else {
                        push_str(&mut out, "unknown-time");
                    }
                },
                None => {
                    push_str(&mut out, "unknown-time");
                },
            }
            return DisplayNameResult { name: out, used_default_name: true };
        }
        DisplayNameResult { name: stem, used_default_name: true }
    }

    /// Whether the file at `path` belongs in this browser.
    fn matches_item_type(&self, path: &str) -> (r: bool)
        ensures
            r == matches_type(self.item_type, path@),
    {
        let f = match file_name(path) {
            Some(n) => n,
            None => String::new(),
        };
        let fs = f.as_str();
        match self.item_type {
            BrowserItemType::Loop => {
                let lower = ascii_lowercase(fs);
                let l = lower.as_str();
                starts_with(l, "loop-") && (ends_with(l, ".wav") || ends_with(l, ".ogg") || ends_with(
                    l,
                    ".flac",
                ) || ends_with(l, ".au"))
            },
            BrowserItemType::Scene => starts_with(fs, "scene-") && ends_with(fs, ".xml"),
            BrowserItemType::Patch => ends_with(fs, ".pat") || ends_with(fs, ".sf2"),
            _ => false,
        }
    }

    /// Fills the browser from a directory listing: the files that belong
    /// here, newest first (stable), the first item current, nothing
    /// selected.  A listing that could not be read leaves the browser empty
    /// and is reported.
    pub fn scan_entries(&mut self, entries: Result<Vec<BrowserFile>, String>) -> (r: Result<(), String>)
        ensures
            match entries {
                Err(e) => final(self).items@.len() == 0 && (r matches Err(m) && m@ == scan_error(
                    old(self).path@,
                    e@,
                )) && final(self).current_index == old(self).current_index && final(self).selected_index
                    == old(self).selected_index && final(self).renaming == old(self).renaming
                    && final(self).last_browsed == old(self).last_browsed,
                Ok(es) => r is Ok && items_view(final(self).items@) == sorted_values(
                    scan_values(old(self).item_type, es@.map_values(|e: BrowserFile| e@)),
                ) && final(self).current_index == first_non_division(final(self).items@)
                    && final(self).selected_index is None && !final(self).renaming
                    && final(self).last_browsed == (final(self).current_index is Some),
            },
            final(self).path == old(self).path,
            final(self).item_type == old(self).item_type,
            final(self).browser_id == old(self).browser_id,
    {
        self.items.clear();
        let es = match entries {
            Err(e) => {
                let mut m = string_from("Failed to read browser path '");
                push_str(&mut m, self.path.as_str());
                push_str(&mut m, "': ");
                push_str(&mut m, e.as_str());
                return Err(m);
            },
            Ok(es) => es,
        };
        let ghost ev = es@.map_values(|e: BrowserFile| e@);
        let n = es.len();
        let mut i: usize = 0;
        assert(ev.take(0) =~= Seq::<BrowserFileValue>::empty());
        assert(items_view(self.items@) =~= Seq::<BrowserItemValue>::empty());
        while i < n
            invariant
                i <= n,
                n == es@.len(),
                ev == es@.map_values(|e: BrowserFile| e@),
                items_view(self.items@) == sorted_values(scan_values(self.item_type, ev.take(i as int))),
                self.path == old(self).path,
                self.item_type == old(self).item_type,
                self.browser_id == old(self).browser_id,
            decreases n - i,
        {
            let entry = &es[i];
            proof {
                assert(ev.take(i + 1).drop_last() =~= ev.take(i as int));
                assert(ev.take(i + 1).last() == entry@);
            }
            let ghost prev = scan_values(self.item_type, ev.take(i as int));
            let keep = entry.is_file && self.matches_item_type(entry.path.as_str());
            proof {
                if keep {
                    assert(scan_values(self.item_type, ev.take(i + 1)) == prev.push(scanned_value(self.item_type, entry@)));
                    assert(prev.push(scanned_value(self.item_type, entry@)).drop_last() =~= prev);
                } else {
                    assert(scan_values(self.item_type, ev.take(i + 1)) == prev);
                }
            }
            if keep {
                let display = self.display_name_for_path(entry.path.as_str(), entry.modified);
                let item = BrowserItem {
                    name: display.name,
                    default_name: display.used_default_name,
                    item_type: self.item_type,
                    match_id: None,
                    filename: Some(string_from(entry.path.as_str())),
                    modified: entry.modified,
                };
                assert(item@ == scanned_value(self.item_type, entry@));
                let ghost before = self.items@;
                let pos = self.sorted_position(&item);
                proof { lemma_insert_position_value(before, item); }
                self.items.insert(pos, item);
                assert(items_view(self.items@) =~= items_view(before).insert(pos as int, item@));
            }
            i = i + 1;
        }
        assert(ev.take(n as int) =~= ev);
        self.current_index = self.first_non_division_index();
        self.selected_index = None;
        self.renaming = false;
        self.last_browsed = self.current_index.is_some();
        Ok(())
    }

    /// Fills the browser from the listing of its directory that
    /// `filesystem` gives.
    pub fn scan_with<F: BrowserFileSystem>(&mut self, filesystem: &F) -> (r: Result<(), String>)
        ensures
            r is Ok ==> final(self).current_index == first_non_division(final(self).items@)
                && final(self).selected_index is None && !final(self).renaming && final(self).last_browsed
                == (final(self).current_index is Some),
            r is Ok ==> forall|k: int|
                0 <= k < final(self).items@.len() ==> scanned_ok(old(self).item_type, #[trigger] final(self).items@[k]@),
            r matches Err(m) ==> final(self).items@.len() == 0 && has_prefix(
                m@,
                "Failed to read browser path '"@ + old(self).path@ + "': "@,
            ),
            final(self).path == old(self).path,
            final(self).item_type == old(self).item_type,
            exists|listing: Result<Seq<BrowserFileValue>, Seq<char>>|
                filesystem.may_list(old(self).path@, listing) && #[trigger] scanned_from(*old(self), *final(self), listing, r),
    {
        self.items.clear();
        let entries = filesystem.entries(self.path.as_str());
        let ghost t = self.item_type;
        let ghost listed = entries;
        let ghost before = *self;
        let r = self.scan_entries(entries);
        proof {
            assert(scanned_from(before, *self, listing_view(listed), r));
            assert(before.path == old(self).path && before.item_type == old(self).item_type);
            assert(scanned_from(*old(self), *self, listing_view(listed), r));
            match listed {
                Ok(es) => {
                    lemma_scan_values_match(t, es@.map_values(|e: BrowserFile| e@));
                    lemma_sorted_values_ok(t, scan_values(t, es@.map_values(|e: BrowserFile| e@)));
                    assert forall|k: int| 0 <= k < self.items@.len() implies scanned_ok(t, #[trigger] self.items@[k]@) by {
                        assert(items_view(self.items@)[k] == self.items@[k]@);
                    }
                },
                Err(e) => {
                    let pre = "Failed to read browser path '"@ + old(self).path@ + "': "@;
                    let m = r->Err_0;
                    assert(m@.take(pre.len() as int) =~= pre);
                },
            }
        }
        r
    }
}

/// The browser `after` is `before` filled from `listing` (see
/// `Browser::scan_entries`): the files of the browser's type, newest
/// first, the first item current and nothing selected; a listing that
/// could not be read leaves no items and is reported.
pub open spec fn scanned_from(
    before: Browser,
    after: Browser,
    listing: Result<Seq<BrowserFileValue>, Seq<char>>,
    r: Result<(), String>,
) -> bool {
    &&& after.path == before.path
    &&& after.item_type == before.item_type
    &&& match listing {
        Err(e) => after.items@.len() == 0 && (r matches Err(m) && m@ == scan_error(before.path@, e)),
        Ok(es) => r is Ok && items_view(after.items@) == sorted_values(scan_values(before.item_type, es))
            && after.current_index == first_non_division(after.items@) && after.selected_index is None
            && !after.renaming && after.last_browsed == (after.current_index is Some),
    }
}

/// Every value that a scan makes has the browser's type and a file that
/// belongs there.
pub open spec fn scanned_ok(t: BrowserItemType, w: BrowserItemValue) -> bool {
    w.2 == t && (w.4 matches Some(p) && matches_type(t, p))
}

proof fn lemma_scan_values_match(t: BrowserItemType, es: Seq<BrowserFileValue>)
    ensures
        forall|k: int| 0 <= k < scan_values(t, es).len() ==> scanned_ok(t, #[trigger] scan_values(t, es)[k]),
    decreases es.len(),
{
    if es.len() > 0 {
        let rest = scan_values(t, es.drop_last());
        lemma_scan_values_match(t, es.drop_last());
        assert forall|k: int| 0 <= k < scan_values(t, es).len() implies scanned_ok(t, #[trigger] scan_values(t, es)[k]) by {
            if k < rest.len() {
                assert(scan_values(t, es)[k] == rest[k]);
            }
        }
    }
}

proof fn lemma_sorted_values_ok(t: BrowserItemType, s: Seq<BrowserItemValue>)
    requires
        forall|k: int| 0 <= k < s.len() ==> scanned_ok(t, #[trigger] s[k]),
    ensures
        sorted_values(s).len() == s.len(),
        forall|k: int| 0 <= k < sorted_values(s).len() ==> scanned_ok(t, #[trigger] sorted_values(s)[k]),
    decreases s.len(),
{
    if s.len() > 0 {
        let rest = sorted_values(s.drop_last());
        assert forall|k: int| 0 <= k < s.drop_last().len() implies scanned_ok(t, #[trigger] s.drop_last()[k]) by {
            assert(s.drop_last()[k] == s[k]);
        }
        lemma_sorted_values_ok(t, s.drop_last());
        lemma_value_insert_position_bound(rest, s.last());
        let pos = value_insert_position(rest, s.last());
        assert(scanned_ok(t, s[s.len() - 1]));
        assert forall|k: int| 0 <= k < sorted_values(s).len() implies scanned_ok(t, #[trigger] sorted_values(s)[k]) by {
            if k < pos {
                assert(sorted_values(s)[k] == rest[k]);
            } else if k == pos {
                assert(sorted_values(s)[k] == s.last());
            } else {
                assert(sorted_values(s)[k] == rest[k - 1]);
            }
        }
    }
}

proof fn lemma_value_insert_position_bound(items: Seq<BrowserItemValue>, item: BrowserItemValue)
    ensures
        0 <= value_insert_position(items, item) <= items.len(),
    decreases items.len(),
{
    if items.len() > 0 {
        lemma_value_insert_position_bound(items.drop_first(), item);
    }
}

impl Browser {
    /// Ends a rename of the current item.  `Some(name)` renames it (an
    /// empty name restores the generated display name); `None` cancels.
    pub fn commit_rename(&mut self, new_name: Option<&str>) -> (r: bool)
        ensures
            match old(self).current_index {
                Some(idx) if old(self).renaming && idx < old(self).items@.len() => r && !final(self).renaming
                    && match new_name {
                    Some(n) => items_view(final(self).items@) == items_view(old(self).items@).update(
                        idx as int,
                        renamed_value(old(self).items@[idx as int]@, n@, old(self).item_type),
                    ),
                    None => items_view(final(self).items@) == items_view(old(self).items@),
                },
                _ => !r && final(self).renaming == old(self).renaming && final(self).items@ == old(
                    self,
                ).items@,
            },
            final(self).items@.len() == old(self).items@.len(),
            final(self).current_index == old(self).current_index,
            final(self).selected_index == old(self).selected_index,
            final(self).item_type == old(self).item_type,
    {
        let idx = match self.current_index {
            Some(i) => i,
            None => return false,
        };
        if !self.renaming {
            return false;
        }
        if idx >= self.items.len() {
            return false;
        }
        let ghost before = self.items@;
        let n = match new_name {
            Some(n) => n,
            None => {
                self.renaming = false;
                return true;
            },
        };
        let fallback = match &self.items[idx].filename {
            Some(path) => Some(self.display_name_for_path(path.as_str(), self.items[idx].modified)),
            None => None,
        };
        let name = if n.unicode_len() == 0 {
            match fallback {
                Some(display) => display.name,
                None => string_from(n),
            }
        } else {
            string_from(n)
        };
        let item = BrowserItem {
            name,
            default_name: n.unicode_len() == 0,
            item_type: self.items[idx].item_type,
            match_id: self.items[idx].match_id,
            filename: copy_opt_string(&self.items[idx].filename),
            modified: self.items[idx].modified,
        };
        self.items.set(idx, item);
        self.renaming = false;
        assert(items_view(self.items@) =~= items_view(before).update(
            idx as int,
            renamed_value(before[idx as int]@, n@, self.item_type),
        ));
        true
    }
}

impl Browser {
    /// Index of the first item whose file is `path`.
    fn find_file(&self, path: &str) -> (r: Option<usize>)
        ensures
            match r {
                Some(k) => first_with_file(items_view(self.items@), path@) == Some(k as int) && k
                    < self.items@.len(),
                None => first_with_file(items_view(self.items@), path@) is None,
            },
    {
        let ghost v = items_view(self.items@);
        let n = self.items.len();
        assert(v.len() == n);
        let mut i: usize = 0;
        assert(v.skip(0) =~= v);
        while i < n
            invariant
                i <= n,
                n == self.items@.len(),
                v == items_view(self.items@),
                v.len() == n,
                first_with_file(v, path@) == (match first_with_file(v.skip(i as int), path@) {
                    Some(k) => Some(k + i),
                    None => None,
                }),
            decreases n - i,
        {
            assert(v.skip(i as int)[0] == v[i as int]);
            assert(v[i as int] == self.items@[i as int]@);
            assert(v.skip(i as int).drop_first() =~= v.skip(i + 1));
            let hit = match &self.items[i].filename {
                Some(f) => paths_equal(f.as_str(), path),
                None => false,
            };
            if hit {
                return Some(i);
            }
            i = i + 1;
        }
        None
    }

    /// Follows a rename of a file on disk: the first item showing
    /// `old_filename` now shows `new_filename` and is called `new_name`
    /// (an empty name gives the generated display name of the new file).
    pub fn item_renamed_on_disk(&mut self, old_filename: &str, new_filename: &str, new_name: &str) -> (r: bool)
        ensures
            match first_with_file(items_view(old(self).items@), old_filename@) {
                None => !r && final(self).items@ == old(self).items@,
                Some(k) => {
                    let v = items_view(old(self).items@)[k];
                    let shown = if new_name@.len() == 0 {
                        display_name(old(self).item_type, new_filename@, v.5).0
                    } else {
                        new_name@
                    };
                    r && items_view(final(self).items@) == items_view(old(self).items@).update(
                        k,
                        (shown, new_name@.len() == 0, v.2, v.3, Some(new_filename@), v.5),
                    )
                },
            },
            final(self).items@.len() == old(self).items@.len(),
            final(self).current_index == old(self).current_index,
            final(self).selected_index == old(self).selected_index,
            final(self).renaming == old(self).renaming,
            final(self).item_type == old(self).item_type,
    {
        let k = match self.find_file(old_filename) {
            Some(k) => k,
            None => return false,
        };
        let ghost before = self.items@;
        let modified = self.items[k].modified;
        let fallback = self.display_name_for_path(new_filename, modified);
        let name = if new_name.unicode_len() == 0 {
            fallback.name
        } else {
            string_from(new_name)
        };
        let item = BrowserItem {
            name,
            default_name: new_name.unicode_len() == 0,
            item_type: self.items[k].item_type,
            match_id: self.items[k].match_id,
            filename: Some(string_from(new_filename)),
            modified,
        };
        self.items.set(k, item);
        assert(items_view(before)[k as int] == before[k as int]@);
        assert(items_view(self.items@) =~= items_view(before).update(k as int, item@));
        true
    }
}

proof fn lemma_next_division_after_bounds(v: Seq<BrowserItemValue>, i: int)
    requires
        0 <= i,
    ensures
        next_division_after(v, i) matches Some(d) ==> i < d < v.len(),
    decreases v.len() - i,
{
    if i + 1 < v.len() && v[i + 1].2 != BrowserItemType::Division {
        lemma_next_division_after_bounds(v, i + 1);
    }
}

proof fn lemma_prev_division_before_bounds(v: Seq<BrowserItemValue>, i: int)
    requires
        i <= v.len(),
    ensures
        prev_division_before(v, i) matches Some(d) ==> 0 <= d < i,
    decreases i,
{
    if i > 0 && v[i - 1].2 != BrowserItemType::Division {
        lemma_prev_division_before_bounds(v, i - 1);
    }
}

proof fn lemma_jump_from_in_range(v: Seq<BrowserItemValue>, cur: int, forward: bool, steps: nat, first: Option<usize>)
    requires
        0 <= cur < v.len(),
        first matches Some(f) ==> f < v.len(),
    ensures
        0 <= jump_from(v, cur, forward, steps, first) < v.len(),
    decreases steps,
{
    if steps > 0 {
        lemma_next_division_after_bounds(v, cur);
        lemma_prev_division_before_bounds(v, cur);
        let next = jump_one(v, cur, forward, steps == 1, first);
        assert(0 <= next < v.len());
        lemma_jump_from_in_range(v, next, forward, (steps - 1) as nat, first);
    }
}

/// Law: moving never rests on a division; where it lands is an item of
/// the list that is not a division.
pub proof fn law_move_never_rests_on_division(items: Seq<BrowserItem>, c: int, adjust: i32, jumpadjust: i32)
    requires
        items.len() <= usize::MAX,
        0 <= c < items.len(),
    ensures
        move_target(items_view(items), c, adjust, jumpadjust, first_non_division(items)) matches Some(i) ==> i
            < items.len() && items[i as int].item_type != BrowserItemType::Division,
{
    let v = items_view(items);
    let first = first_non_division(items);
    lemma_first_non_division(items);
    lemma_jump_from_in_range(v, c, jumpadjust >= 0, jump_steps(jumpadjust), first);
    let j = jump_from(v, c, jumpadjust >= 0, jump_steps(jumpadjust), first);
    lemma_walk_items_in_range(v, j, adjust >= 0, abs_nat(adjust));
    let a = if adjust == 0 { j } else { walk_items(v, j, adjust >= 0, abs_nat(adjust)) };
    assert(v[a] == items[a]@);
    match first {
        Some(f) => {
            assert(v[f as int] == items[f as int]@);
        },
        None => {},
    }
}

/// Values of one loop or scene kind, in order newest first: no entry is
/// older than one after it.
pub open spec fn newest_first(s: Seq<BrowserItemValue>) -> bool {
    forall|i: int, j: int| 0 <= i < j < s.len() ==> !time_lt(#[trigger] s[i].5, #[trigger] s[j].5)
}

/// All values have type `t`.
pub open spec fn all_of_type(s: Seq<BrowserItemValue>, t: BrowserItemType) -> bool {
    forall|k: int| 0 <= k < s.len() ==> #[trigger] s[k].2 == t
}

proof fn lemma_value_insert_position_facts(r: Seq<BrowserItemValue>, x: BrowserItemValue)
    ensures
        0 <= value_insert_position(r, x) <= r.len(),
        forall|k: int| 0 <= k < value_insert_position(r, x) ==> !value_before(x, #[trigger] r[k]),
        value_insert_position(r, x) < r.len() ==> value_before(x, r[value_insert_position(r, x)]),
    decreases r.len(),
{
    if r.len() > 0 && !value_before(x, r[0]) {
        let t = r.drop_first();
        lemma_value_insert_position_facts(t, x);
        assert forall|k: int| 0 <= k < value_insert_position(r, x) implies !value_before(x, #[trigger] r[k]) by {
            if k > 0 {
                assert(r[k] == t[k - 1]);
            }
        }
        if value_insert_position(r, x) < r.len() {
            assert(r[value_insert_position(r, x)] == t[value_insert_position(t, x)]);
        }
    }
}

proof fn lemma_sorted_values_type(s: Seq<BrowserItemValue>, t: BrowserItemType)
    requires
        all_of_type(s, t),
    ensures
        sorted_values(s).len() == s.len(),
        all_of_type(sorted_values(s), t),
    decreases s.len(),
{
    if s.len() > 0 {
        let r = sorted_values(s.drop_last());
        assert(all_of_type(s.drop_last(), t)) by {
            assert forall|k: int| 0 <= k < s.drop_last().len() implies #[trigger] s.drop_last()[k].2 == t by {
                assert(s.drop_last()[k] == s[k]);
            }
        }
        lemma_sorted_values_type(s.drop_last(), t);
        lemma_value_insert_position_facts(r, s.last());
        let p = value_insert_position(r, s.last());
        assert(s.last() == s[s.len() - 1]);
        assert forall|k: int| 0 <= k < sorted_values(s).len() implies #[trigger] sorted_values(s)[k].2 == t by {
            if k < p {
                assert(sorted_values(s)[k] == r[k]);
            } else if k == p {
                assert(sorted_values(s)[k] == s.last());
            } else {
                assert(sorted_values(s)[k] == r[k - 1]);
            }
        }
    }
}

/// Law: a scan lists the files of a loop or scene browser newest first.
pub proof fn law_scan_newest_first(s: Seq<BrowserItemValue>, t: BrowserItemType)
    requires
        t == BrowserItemType::Loop || t == BrowserItemType::Scene,
        all_of_type(s, t),
    ensures
        newest_first(sorted_values(s)),
    decreases s.len(),
{
    if s.len() > 0 {
        let d = s.drop_last();
        let x = s.last();
        assert(all_of_type(d, t)) by {
            assert forall|k: int| 0 <= k < d.len() implies #[trigger] d[k].2 == t by {
                assert(d[k] == s[k]);
            }
        }
        assert(x == s[s.len() - 1]);
        law_scan_newest_first(d, t);
        lemma_sorted_values_type(d, t);
        let r = sorted_values(d);
        lemma_value_insert_position_facts(r, x);
        let p = value_insert_position(r, x);
        let out = sorted_values(s);
        assert(out == r.insert(p, x));
        assert forall|i: int, j: int| 0 <= i < j < out.len() implies !time_lt(#[trigger] out[i].5, #[trigger] out[j].5) by {
            if j < p {
                assert(out[i] == r[i] && out[j] == r[j]);
            } else if j == p {
                assert(out[i] == r[i] && out[j] == x);
                assert(r[i].2 == t);
            } else if i < p {
                assert(out[i] == r[i] && out[j] == r[j - 1]);
            } else if i == p {
                assert(out[i] == x && out[j] == r[j - 1]);
                assert(r[p].2 == t);
                assert(value_before(x, r[p]));
                if j - 1 > p {
                    assert(!time_lt(r[p].5, r[j - 1].5));
                }
            } else {
                assert(out[i] == r[i - 1] && out[j] == r[j - 1]);
            }
        }
    }
}

/// Whether an event is one that a browser answers.
pub open spec fn browser_event(ev: &Event) -> bool {
    ||| *ev is BrowserMoveToItem
    ||| *ev is BrowserMoveToItemAbsolute
    ||| *ev is BrowserSelectItem
    ||| *ev is BrowserRenameItem
    ||| *ev is RenameLoop
    ||| *ev is PatchBrowserMoveToBank
    ||| *ev is PatchBrowserMoveToBankByIndex
    ||| *ev is BrowserItemBrowsed
}

/// Index of the first item showing loop `loopid`.
pub open spec fn first_with_match(items: Seq<BrowserItem>, loopid: i32) -> Option<int>
    decreases items.len(),
{
    if items.len() == 0 {
        None
    } else if items[0].match_id == Some(loopid) {
        Some(0)
    } else {
        match first_with_match(items.drop_first(), loopid) {
            Some(k) => Some(k + 1),
            None => None,
        }
    }
}

/// The current index after `move_to(adjust, jumpadjust)` from `current`.
pub open spec fn moved_current(items: Seq<BrowserItem>, current: Option<usize>, adjust: i32, jumpadjust: i32) -> Option<usize> {
    if items.len() == 0 {
        None
    } else {
        let first = first_non_division(items);
        let start = match current {
            Some(c) => Some(c),
            None => first,
        };
        match start {
            None => None,
            Some(c) => move_target(items_view(items), c as int, adjust, jumpadjust, first),
        }
    }
}

impl Browser {
    /// The first item showing loop `loopid`.
    fn find_match(&self, loopid: i32) -> (r: Option<usize>)
        ensures
            match r {
                Some(k) => first_with_match(self.items@, loopid) == Some(k as int) && k < self.items@.len(),
                None => first_with_match(self.items@, loopid) is None,
            },
    {
        let n = self.items.len();
        let mut i: usize = 0;
        assert(self.items@.skip(0) =~= self.items@);
        while i < n
            invariant
                i <= n,
                n == self.items@.len(),
                first_with_match(self.items@, loopid) == (match first_with_match(self.items@.skip(i as int), loopid) {
                    Some(k) => Some(k + i),
                    None => None,
                }),
            decreases n - i,
        {
            assert(self.items@.skip(i as int)[0] == self.items@[i as int]);
            assert(self.items@.skip(i as int).drop_first() =~= self.items@.skip(i + 1));
            if self.items[i].match_id == Some(loopid) {
                return Some(i);
            }
            i = i + 1;
        }
        None
    }

    /// Answers a browser event; returns whether it was for this browser
    /// and acted on.
    pub fn receive_event(&mut self, ev: &Event) -> (r: bool)
        requires
            old(self).current_index matches Some(c) ==> c < old(self).items@.len(),
        ensures
            final(self).items == old(self).items,
            *ev matches Event::BrowserMoveToItem { browserid, adjust, jump_adjust } ==> (if browserid
                != old(self).browser_id {
                !r && final(self).current_index == old(self).current_index
            } else {
                r && final(self).current_index == moved_current(old(self).items@, old(self).current_index, adjust, jump_adjust)
            }),
            *ev matches Event::BrowserMoveToItemAbsolute { browserid, index } ==> (if browserid
                != old(self).browser_id {
                !r && final(self).current_index == old(self).current_index
            } else {
                r && final(self).current_index == moved_current(
                    old(self).items@,
                    first_non_division(old(self).items@),
                    index,
                    0,
                )
            }),
            *ev matches Event::BrowserSelectItem { browserid } ==> (if browserid != old(self).browser_id {
                !r && final(self).selected_index == old(self).selected_index
            } else {
                r && final(self).selected_index == old(self).current_index
            }),
            *ev matches Event::BrowserRenameItem { browserid } ==> (if browserid != old(self).browser_id {
                !r && final(self).renaming == old(self).renaming
            } else {
                r && match old(self).current_index {
                    Some(i) => final(self).renaming == renamable(old(self).items@[i as int].item_type),
                    None => final(self).renaming == old(self).renaming,
                }
            }),
            *ev is RenameLoop ==> (if old(self).item_type != BrowserItemType::LoopTray || (*ev)->RenameLoop_in_layout {
                !r && final(self).current_index == old(self).current_index
            } else {
                match first_with_match(old(self).items@, (*ev)->RenameLoop_loopid) {
                    None => !r && final(self).current_index == old(self).current_index,
                    Some(k) => final(self).current_index == Some(k as usize) && final(self).selected_index == Some(
                        k as usize,
                    ) && final(self).last_browsed && r == renamable(old(self).items@[k].item_type)
                        && final(self).renaming == r,
                }
            }),
            *ev matches Event::PatchBrowserMoveToBank { direction } ==> ({
                let start = match old(self).current_index {
                    Some(c) => Some(c),
                    None => first_non_division(old(self).items@),
                };
                if old(self).item_type != BrowserItemType::Patch || old(self).items@.len() == 0 {
                    !r && final(self).current_index == old(self).current_index
                } else {
                    match start {
                        None => !r,
                        Some(c) => match bank_step(items_view(old(self).items@), c as int, direction >= 0) {
                            Some(t) => r && final(self).current_index == Some(t as usize),
                            None => !r && final(self).current_index == Some(c),
                        },
                    }
                }
            }),
            *ev matches Event::PatchBrowserMoveToBankByIndex { index } ==> ({
                let found = old(self).item_type == BrowserItemType::Patch && old(self).items@.len() > 0 && index
                    >= 0 && first_of_bank_from(items_view(old(self).items@), 0, index as int) is Some;
                if found {
                    r && final(self).current_index == Some(
                        first_of_bank_from(items_view(old(self).items@), 0, index as int).unwrap() as usize,
                    )
                } else {
                    !r && final(self).current_index == old(self).current_index
                }
            }),
            *ev matches Event::BrowserItemBrowsed { browserid } ==> (if browserid != old(self).browser_id {
                !r && final(self).last_browsed == old(self).last_browsed
            } else {
                r == (old(self).current_index is Some) && final(self).last_browsed == r
            }),
            !browser_event(ev) ==> !r && final(self).current_index == old(self).current_index && final(self).selected_index
                == old(self).selected_index && final(self).renaming == old(self).renaming,
    {
        match ev {
            Event::BrowserMoveToItem { browserid, adjust, jump_adjust } => {
                if *browserid != self.browser_id {
                    return false;
                }
                self.move_to(*adjust, *jump_adjust);
                true
            },
            Event::BrowserMoveToItemAbsolute { browserid, index } => {
                if *browserid != self.browser_id {
                    return false;
                }
                self.move_to_beginning();
                let n = self.items.len();
                proof { lemma_first_non_division(self.items@); }
                self.move_to(*index, 0);
                true
            },
            Event::BrowserSelectItem { browserid } => {
                if *browserid != self.browser_id {
                    return false;
                }
                self.select_current();
                true
            },
            Event::BrowserRenameItem { browserid } => {
                if *browserid != self.browser_id {
                    return false;
                }
                self.begin_rename();
                true
            },
            Event::RenameLoop { loopid, in_layout } => {
                if self.item_type != BrowserItemType::LoopTray || *in_layout {
                    return false;
                }
                match self.find_match(*loopid) {
                    Some(k) => {
                        self.current_index = Some(k);
                        self.selected_index = Some(k);
                        self.last_browsed = true;
                        self.begin_rename()
                    },
                    None => false,
                }
            },
            Event::PatchBrowserMoveToBank { direction } => self.move_patch_bank(*direction),
            Event::PatchBrowserMoveToBankByIndex { index } => self.move_patch_bank_to_index(*index),
            Event::BrowserItemBrowsed { browserid } => {
                if *browserid != self.browser_id {
                    return false;
                }
                self.item_browsed()
            },
            _ => false,
        }
    }
}

} // verus!
