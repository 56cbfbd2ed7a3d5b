//! Loop and scene entries as the library keeps them, and the list of
//! snapshot names shown on screen.

use vstd::prelude::*;
use crate::browser::{Browser, BrowserItem, BrowserItemType, BrowserItemValue, FileTime, items_view, opt_string_view};
use crate::paths::last_dot;
use crate::text::string_from;

verus! {

/// A path without its extension: everything before the last `.`.
pub open spec fn without_extension(path: Seq<char>) -> Seq<char> {
    match last_dot(path) {
        Some(k) => path.take(k),
        None => path,
    }
}

/// Removes the extension of `path`.
fn strip_extension(path: &str) -> (r: String)
    ensures
        r@ == without_extension(path@),
{
    let n = path.unicode_len();
    let mut k = n;
    while k > 0 && path.get_char(k - 1) != '.'
        invariant
            k <= n,
            n == path@.len(),
            forall|j: int| k <= j < n ==> path@[j] != '.',
        decreases k,
    {
        k = k - 1;
    }
    proof {
        if k > 0 {
            lemma_last_dot_found(path@, k - 1);
        } else {
            lemma_last_dot_absent(path@);
        }
    }
    if k > 0 {
        let r = string_from(path.substring_char(0, k - 1));
        assert(r@ =~= path@.take(k - 1));
        r
    } else {
        string_from(path)
    }
}

proof fn lemma_last_dot_found(p: Seq<char>, k: int)
    requires
        0 <= k < p.len(),
        p[k] == '.',
        forall|j: int| k < j < p.len() ==> p[j] != '.',
    ensures
        last_dot(p) == Some(k),
    decreases p.len(),
{
    if p.last() != '.' {
        assert forall|j: int| k < j < p.drop_last().len() implies p.drop_last()[j] != '.' by {
            assert(p.drop_last()[j] == p[j]);
        }
        assert(p.drop_last()[k] == p[k]);
        lemma_last_dot_found(p.drop_last(), k);
    }
}

proof fn lemma_last_dot_absent(p: Seq<char>)
    requires
        forall|j: int| 0 <= j < p.len() ==> p[j] != '.',
    ensures
        last_dot(p) is None,
    decreases p.len(),
{
    if p.len() > 0 {
        assert forall|j: int| 0 <= j < p.drop_last().len() implies p.drop_last()[j] != '.' by {
            assert(p.drop_last()[j] == p[j]);
        }
        lemma_last_dot_absent(p.drop_last());
    }
}

fn strip_opt(filename: Option<&str>) -> (r: Option<String>)
    ensures
        match filename {
            Some(f) => r matches Some(s) && s@ == without_extension(f@),
            None => r is None,
        },
{
    match filename {
        Some(f) => Some(strip_extension(f)),
        None => None,
    }
}

/// A saved loop in the library.
pub struct LoopBrowserItem {
    pub item: BrowserItem,
    pub modified: Option<FileTime>,
    pub filename: Option<String>,
}

impl LoopBrowserItem {
    /// A loop entry; the file name is kept without its extension.
    pub fn new(time: Option<FileTime>, name: &str, default_name: bool, filename: Option<&str>) -> (l: LoopBrowserItem)
        ensures
            l.item.name@ == name@,
            l.item.default_name == default_name,
            l.item.item_type == BrowserItemType::Loop,
            l.item.match_id is None,
            l.item.filename is None,
            l.item.modified is None,
            l.modified == time,
            match filename {
                Some(f) => l.filename matches Some(s) && s@ == without_extension(f@),
                None => l.filename is None,
            },
    {
        LoopBrowserItem {
            item: BrowserItem::new(name, default_name, BrowserItemType::Loop),
            modified: time,
            filename: strip_opt(filename),
        }
    }

    /// The browser item of this entry.
    pub fn into_item(self) -> (it: BrowserItem)
        ensures
            it == self.item,
    {
        self.item
    }
}

/// A saved scene in the library.
pub struct SceneBrowserItem {
    pub item: BrowserItem,
    pub modified: Option<FileTime>,
    pub filename: Option<String>,
}

impl SceneBrowserItem {
    /// A scene entry; the file name is kept without its extension.
    pub fn new(time: Option<FileTime>, name: &str, default_name: bool, filename: Option<&str>) -> (l: SceneBrowserItem)
        ensures
            l.item.name@ == name@,
            l.item.default_name == default_name,
            l.item.item_type == BrowserItemType::Scene,
            l.item.match_id is None,
            l.item.filename is None,
            l.item.modified is None,
            l.modified == time,
            match filename {
                Some(f) => l.filename matches Some(s) && s@ == without_extension(f@),
                None => l.filename is None,
            },
    {
        SceneBrowserItem {
            item: BrowserItem::new(name, default_name, BrowserItemType::Scene),
            modified: time,
            filename: strip_opt(filename),
        }
    }

    /// The browser item of this entry.
    pub fn into_item(self) -> (it: BrowserItem)
        ensures
            it == self.item,
    {
        self.item
    }
}

/// The snapshot names and the part of them that is shown.
pub struct SnapshotBrowser {
    pub names: Vec<String>,
    pub first_index: usize,
    pub displayed: Option<usize>,
}

/// The plain names of a list of strings.
pub open spec fn names_view(names: Seq<String>) -> Seq<Seq<char>> {
    names.map_values(|s: String| s@)
}

impl SnapshotBrowser {
    /// Shows nothing yet.
    pub fn new(names: Vec<String>) -> (b: SnapshotBrowser)
        ensures
            b.names@ == names@,
            b.first_index == 0,
            b.displayed is None,
    {
        SnapshotBrowser { names, first_index: 0, displayed: None }
    }

    /// Renames snapshot `index`; `false` when there is none.
    pub fn rename(&mut self, index: usize, name: &str) -> (r: bool)
        ensures
            r == (index < old(self).names@.len()),
            r ==> names_view(final(self).names@) == names_view(old(self).names@).update(index as int, name@),
            !r ==> final(self).names@ == old(self).names@,
            final(self).first_index == old(self).first_index,
            final(self).displayed == old(self).displayed,
    {
        if index < self.names.len() {
            let ghost before = self.names@;
            self.names.set(index, string_from(name));
            assert(names_view(self.names@) =~= names_view(before).update(index as int, name@));
            true
        } else {
            false
        }
    }

    /// Shows up to `count` names from `first`, within the list.
    pub fn display_range(&mut self, first: usize, count: usize)
        ensures
            final(self).names == old(self).names,
            final(self).first_index == (if first < old(self).names@.len() { first } else { old(self).names@.len() as usize }),
            final(self).displayed == Some(
                (if count < old(self).names@.len() - final(self).first_index { count } else {
                    (old(self).names@.len() - final(self).first_index) as usize
                }),
            ),
    {
        let n = self.names.len();
        self.first_index = if first < n { first } else { n };
        let left = n - self.first_index;
        self.displayed = Some(if count < left { count } else { left });
    }
}


// ------------------------------------------------------------------
// Patches and their banks
// ------------------------------------------------------------------

/// Bit pattern of the default first bypass time, 0 seconds (`f32`).
pub const BYPASS_TIME1_DEFAULT_BITS: u32 = 0x0000_0000;

/// Bit pattern of the default second bypass time, 10 seconds (`f32`).
pub const BYPASS_TIME2_DEFAULT_BITS: u32 = 0x4120_0000;

/// A key zone of a combination patch.  The bypass times (seconds, `f32`)
/// are carried as their bit patterns; nothing here computes with them.
#[derive(Debug, Clone, PartialEq)]
pub struct CombiZone {
    pub key_low: i32,
    pub key_high: i32,
    pub port_redirect: bool,
    pub port: i32,
    pub bank: i32,
    pub program: i32,
    pub channel: i32,
    pub bypass_cc: bool,
    pub bypass_channel: i32,
    pub bypass_time1_bits: u32,
    pub bypass_time2_bits: u32,
}

/// The zone that `setup_zones` adds: the whole zone unset.
pub open spec fn default_zone(z: CombiZone) -> bool {
    &&& z.key_low == 0
    &&& z.key_high == 0
    &&& !z.port_redirect
    &&& z.port == 0
    &&& z.bank == -1
    &&& z.program == -1
    &&& z.channel == 0
    &&& !z.bypass_cc
    &&& z.bypass_channel == -1
    &&& z.bypass_time1_bits == BYPASS_TIME1_DEFAULT_BITS
    &&& z.bypass_time2_bits == BYPASS_TIME2_DEFAULT_BITS
}

fn new_default_zone() -> (z: CombiZone)
    ensures
        default_zone(z),
{
    CombiZone {
        key_low: 0,
        key_high: 0,
        port_redirect: false,
        port: 0,
        bank: -1,
        program: -1,
        channel: 0,
        bypass_cc: false,
        bypass_channel: -1,
        bypass_time1_bits: BYPASS_TIME1_DEFAULT_BITS,
        bypass_time2_bits: BYPASS_TIME2_DEFAULT_BITS,
    }
}

/// A patch (a program of a synthesizer), possibly a combination of zones.
/// The bypass times are carried as `f32` bit patterns.
#[derive(Debug, Clone)]
pub struct PatchItem {
    pub item: BrowserItem,
    pub id: i32,
    pub bank: i32,
    pub program: i32,
    pub channel: i32,
    pub bypass_cc: bool,
    pub bypass_channel: i32,
    pub bypass_time1_bits: u32,
    pub bypass_time2_bits: u32,
    pub zones: Vec<CombiZone>,
}

impl PatchItem {
    /// A plain patch named `name`, with no zones and no bypass.
    pub fn new(id: i32, bank: i32, program: i32, channel: i32, name: &str) -> (p: PatchItem)
        ensures
            p.item@ == (name@, false, BrowserItemType::Patch, None::<i32>, None::<Seq<char>>, None::<FileTime>),
            p.id == id,
            p.bank == bank,
            p.program == program,
            p.channel == channel,
            !p.bypass_cc,
            p.bypass_channel == -1,
            p.bypass_time1_bits == BYPASS_TIME1_DEFAULT_BITS,
            p.bypass_time2_bits == BYPASS_TIME2_DEFAULT_BITS,
            p.zones@.len() == 0,
    {
        PatchItem {
            item: BrowserItem::new(name, false, BrowserItemType::Patch),
            id,
            bank,
            program,
            channel,
            bypass_cc: false,
            bypass_channel: -1,
            bypass_time1_bits: BYPASS_TIME1_DEFAULT_BITS,
            bypass_time2_bits: BYPASS_TIME2_DEFAULT_BITS,
            zones: Vec::new(),
        }
    }

    /// Makes the patch have `count` zones: those beyond are dropped, the
    /// missing ones added unset.
    pub fn setup_zones(&mut self, count: usize)
        ensures
            final(self).zones@.len() == count,
            forall|i: int|
                0 <= i < count && i < old(self).zones@.len() ==> #[trigger] final(self).zones@[i]
                    == old(self).zones@[i],
            forall|i: int|
                old(self).zones@.len() <= i < count ==> default_zone(#[trigger] final(self).zones@[i]),
            final(self).item == old(self).item,
            final(self).id == old(self).id,
            final(self).bank == old(self).bank,
            final(self).program == old(self).program,
            final(self).channel == old(self).channel,
            final(self).bypass_cc == old(self).bypass_cc,
            final(self).bypass_channel == old(self).bypass_channel,
            final(self).bypass_time1_bits == old(self).bypass_time1_bits,
            final(self).bypass_time2_bits == old(self).bypass_time2_bits,
    {
        if self.zones.len() > count {
            self.zones.truncate(count);
        }
        let ghost kept = self.zones@;
        while self.zones.len() < count
            invariant
                kept.len() <= self.zones@.len() <= count,
                kept.len() == (if old(self).zones@.len() < count { old(self).zones@.len() as int } else { count as int }),
                forall|i: int| 0 <= i < kept.len() ==> #[trigger] kept[i] == old(self).zones@[i],
                forall|i: int| 0 <= i < kept.len() ==> #[trigger] self.zones@[i] == kept[i],
                forall|i: int| kept.len() <= i < self.zones@.len() ==> default_zone(#[trigger] self.zones@[i]),
                self.item == old(self).item,
                self.id == old(self).id,
                self.bank == old(self).bank,
                self.program == old(self).program,
                self.channel == old(self).channel,
                self.bypass_cc == old(self).bypass_cc,
                self.bypass_channel == old(self).bypass_channel,
                self.bypass_time1_bits == old(self).bypass_time1_bits,
                self.bypass_time2_bits == old(self).bypass_time2_bits,
            decreases count - self.zones@.len(),
        {
            self.zones.push(new_default_zone());
        }
    }

    /// A combination patch is one with zones.
    pub fn is_combi(&self) -> (r: bool)
        ensures
            r == (self.zones@.len() > 0),
    {
        self.zones.len() > 0
    }

    /// Zone `index`, if there is one.
    pub fn zone(&self, index: usize) -> (r: Option<&CombiZone>)
        ensures
            r == (if index < self.zones@.len() { Some(&self.zones@[index as int]) } else { None }),
    {
        if index < self.zones.len() {
            Some(&self.zones[index])
        } else {
            None
        }
    }

    /// The browser item of this patch.
    pub fn into_item(self) -> (it: BrowserItem)
        ensures
            it == self.item,
    {
        self.item
    }
}

/// The browser items of a list of patches.
pub open spec fn patch_items_view(items: Seq<PatchItem>) -> Seq<BrowserItemValue> {
    items.map_values(|p: PatchItem| p.item@)
}

/// The patches of one bank (one port and tag of a synthesizer).
#[derive(Debug, Clone)]
pub struct PatchBank {
    pub port: i32,
    pub tag: i32,
    pub suppress_change: bool,
    pub items: Vec<PatchItem>,
    pub current_index: Option<usize>,
}

impl PatchBank {
    /// An empty bank.
    pub fn new(port: i32, tag: i32, suppress_change: bool) -> (b: PatchBank)
        ensures
            b.port == port,
            b.tag == tag,
            b.suppress_change == suppress_change,
            b.items@.len() == 0,
            b.current_index is None,
    {
        PatchBank { port, tag, suppress_change, items: Vec::new(), current_index: None }
    }

    /// Adds a patch at the end; the first patch becomes current.
    pub fn add(&mut self, item: PatchItem)
        ensures
            final(self).items@ == old(self).items@.push(item),
            final(self).current_index == (match old(self).current_index {
                Some(i) => Some(i),
                None => Some(0usize),
            }),
            final(self).port == old(self).port,
            final(self).tag == old(self).tag,
            final(self).suppress_change == old(self).suppress_change,
    {
        if self.current_index.is_none() {
            self.current_index = Some(0);
        }
        self.items.push(item);
    }

    /// The current patch, if the index names one.
    pub fn current(&self) -> (r: Option<&PatchItem>)
        ensures
            r == (match self.current_index {
                Some(i) => if i < self.items@.len() { Some(&self.items@[i as int]) } else { None },
                None => None,
            }),
    {
        match self.current_index {
            Some(i) => {
                if i < self.items.len() {
                    Some(&self.items[i])
                } else {
                    None
                }
            },
            None => None,
        }
    }
}

/// The items that the browser shows for the bank at `current`.
pub open spec fn bank_items(banks: Seq<PatchBank>, current: Option<usize>) -> Seq<BrowserItemValue> {
    match current {
        Some(i) => if i < banks.len() { patch_items_view(banks[i as int].items@) } else { Seq::empty() },
        None => Seq::empty(),
    }
}

/// The bank that moving by `direction` from `current` reaches, if any:
/// none without a current bank or outside the banks.
pub open spec fn bank_step(current: Option<usize>, direction: i32, len: int) -> Option<int> {
    match current {
        Some(i) => {
            let n = (i as i32) + direction;
            if n < 0 || n >= len {
                None
            } else {
                Some(n)
            }
        },
        None => None,
    }
}

/// A browser of patches, one bank at a time.
pub struct PatchBrowser {
    pub browser: Browser,
    pub banks: Vec<PatchBank>,
    pub current_bank: Option<usize>,
}

/// A copy of an item.
fn copy_item(it: &BrowserItem) -> (r: BrowserItem)
    ensures
        r@ == it@,
{
    BrowserItem {
        name: string_from(it.name.as_str()),
        default_name: it.default_name,
        item_type: it.item_type,
        match_id: it.match_id,
        filename: match &it.filename {
            Some(f) => Some(string_from(f.as_str())),
            None => None,
        },
        modified: it.modified,
    }
}

impl PatchBrowser {
    /// The browser shows the current bank, its first patch current.
    pub open spec fn shows_current_bank(self) -> bool {
        &&& items_view(self.browser.items@) == bank_items(self.banks@, self.current_bank)
        &&& self.browser.current_index == (if self.browser.items@.len() > 0 { Some(0usize) } else { None })
    }

    /// The parts of the browser that following a bank leaves alone.
    pub open spec fn keeps_browser(self, other: PatchBrowser) -> bool {
        &&& self.browser.browser_id == other.browser.browser_id
        &&& self.browser.path == other.browser.path
        &&& self.browser.item_type == other.browser.item_type
        &&& self.browser.selected_index == other.browser.selected_index
        &&& self.browser.renaming == other.browser.renaming
        &&& self.browser.last_browsed == other.browser.last_browsed
    }

    /// An empty patch browser of `path`.
    pub fn new(path: &str) -> (b: PatchBrowser)
        ensures
            b.browser.browser_id == 0,
            b.browser.items@.len() == 0,
            b.browser.path@ == path@,
            b.browser.item_type == BrowserItemType::Patch,
            b.browser.current_index is None,
            b.browser.selected_index is None,
            !b.browser.renaming,
            !b.browser.last_browsed,
            b.banks@.len() == 0,
            b.current_bank is None,
    {
        PatchBrowser { browser: Browser::new(path, BrowserItemType::Patch), banks: Vec::new(), current_bank: None }
    }

    /// Adds a bank at the end; the first bank becomes current.  The browser
    /// then shows the current bank.
    pub fn add_bank(&mut self, bank: PatchBank)
        ensures
            final(self).banks@ == old(self).banks@.push(bank),
            final(self).current_bank == (match old(self).current_bank {
                Some(i) => Some(i),
                None => Some(0usize),
            }),
            final(self).shows_current_bank(),
            final(self).keeps_browser(*old(self)),
    {
        self.banks.push(bank);
        if self.current_bank.is_none() {
            self.current_bank = Some(0);
        }
        self.refresh();
    }

    /// Moves `direction` banks on from the current one; `false` (nothing
    /// changed) without a current bank or past either end.
    pub fn move_to_bank(&mut self, direction: i32) -> (moved: bool)
        requires
            old(self).current_bank matches Some(i) ==> i32::MIN <= (i as i32) + direction <= i32::MAX,
        ensures
            moved == (bank_step(old(self).current_bank, direction, old(self).banks@.len() as int) is Some),
            moved ==> final(self).current_bank == Some(
                bank_step(old(self).current_bank, direction, old(self).banks@.len() as int)->0 as usize,
            ) && final(self).shows_current_bank(),
            !moved ==> *final(self) == *old(self),
            final(self).banks == old(self).banks,
            final(self).keeps_browser(*old(self)),
    {
        let i = match self.current_bank {
            Some(i) => i,
            None => {
                return false;
            },
        };
        #[verifier::truncate]
        let start = i as i32;
        let n = start + direction;
        if n < 0 || n as usize >= self.banks.len() {
            return false;
        }
        self.current_bank = Some(n as usize);
        self.refresh();
        true
    }

    /// Makes bank `index` current; `false` (nothing changed) when there is
    /// none.
    pub fn move_to_bank_index(&mut self, index: usize) -> (moved: bool)
        ensures
            moved == (index < old(self).banks@.len()),
            moved ==> final(self).current_bank == Some(index) && final(self).shows_current_bank(),
            !moved ==> *final(self) == *old(self),
            final(self).banks == old(self).banks,
            final(self).keeps_browser(*old(self)),
    {
        if index >= self.banks.len() {
            return false;
        }
        self.current_bank = Some(index);
        self.refresh();
        true
    }

    /// The current bank, if the index names one.
    pub fn current_bank(&self) -> (r: Option<&PatchBank>)
        ensures
            r == (match self.current_bank {
                Some(i) => if i < self.banks@.len() { Some(&self.banks@[i as int]) } else { None },
                None => None,
            }),
    {
        match self.current_bank {
            Some(i) => {
                if i < self.banks.len() {
                    Some(&self.banks[i])
                } else {
                    None
                }
            },
            None => None,
        }
    }

    /// Shows the current bank's patches, the first one current.
    fn refresh(&mut self)
        ensures
            final(self).shows_current_bank(),
            final(self).banks == old(self).banks,
            final(self).current_bank == old(self).current_bank,
            final(self).keeps_browser(*old(self)),
    {
        let mut items: Vec<BrowserItem> = Vec::new();
        match self.current_bank() {
            Some(bank) => {
                let n = bank.items.len();
                let mut k: usize = 0;
                while k < n
                    invariant
                        k <= n,
                        n == bank.items@.len(),
                        items_view(items@) == patch_items_view(bank.items@).take(k as int),
                    decreases n - k,
                {
                    let it = copy_item(&bank.items[k].item);
                    let ghost before = items@;
                    items.push(it);
                    assert(items_view(items@) =~= items_view(before).push(it@));
                    assert(patch_items_view(bank.items@).take(k + 1) =~= patch_items_view(bank.items@).take(
                        k as int,
                    ).push(bank.items@[k as int].item@));
                    k = k + 1;
                }
                assert(patch_items_view(bank.items@).take(n as int) =~= patch_items_view(bank.items@));
            },
            None => {
                assert(items_view(items@) =~= Seq::<BrowserItemValue>::empty());
            },
        }
        let nonempty = items.len() > 0;
        self.browser.items = items;
        self.browser.current_index = if nonempty { Some(0) } else { None };
    }
}

} // verus!
