//! Loading and saving through a file store: the listing a browser of saved
//! objects shows, saving a loop, renaming every file of a saved object, and
//! reading a loop's metadata back.

use vstd::prelude::*;
use vstd::string::*;
use vstd::utf8::*;
use crate::browser::FileTime;
use crate::core_persistence::{
    LoopSource, Scene, SplitOutcome, encode_hash, scene_xml, hex_upper, loop_metadata_xml, md5_audio, opt_view,
    saveable_path, saveable_stub, split_filename, split_spec, split_would_split_char, stub_spec,
};
use crate::core_persistence_parse::{
    LoopMetadata, loop_metadata_result_view, loop_metadata_spec, parse_loop_metadata_xml, SceneLoad,
    SceneValue, parse_scene_xml, scene_spec, scene_view,
};
use crate::md5::md5_digest;
use crate::paths::{
    file_name, file_stem, lemma_path_less_irreflexive, lemma_path_less_transitive, path_file_name,
    path_file_stem, path_less, path_precedes,
};
use crate::text::{
    contains_char, ends_with, has_prefix, has_suffix, push_str, starts_with, string_from,
    text_from_utf8,
};
use crate::xml::{xml_document, xml_root_element};

verus! {

/// A file of the store, as its listing reports it.
#[derive(Debug, Clone)]
pub struct PersistenceFile {
    pub path: String,
    pub modified: Option<FileTime>,
    pub is_file: bool,
}

/// Plain value of a listed file: path, time, and a flag (whether it is a
/// file, or in a browser listing whether its name is the generated one).
pub type PersistenceFileValue = (Seq<char>, Option<FileTime>, bool);

impl View for PersistenceFile {
    type V = PersistenceFileValue;

    open spec fn view(&self) -> PersistenceFileValue {
        (self.path@, self.modified, self.is_file)
    }
}

/// A saved file as a browser is given it.
#[derive(Debug, Clone)]
pub struct ListedFile {
    pub path: String,
    pub modified: Option<FileTime>,
    /// The stem has no `-`, so no name was given.
    pub default_name: bool,
}

impl View for ListedFile {
    type V = PersistenceFileValue;

    open spec fn view(&self) -> PersistenceFileValue {
        (self.path@, self.modified, self.default_name)
    }
}

/// The plain value of a store's listing, or of the error in its place.
pub open spec fn entries_view(r: Result<Vec<PersistenceFile>, String>) -> Result<Seq<PersistenceFileValue>, Seq<char>> {
    match r {
        Ok(es) => Ok(files_view(es@)),
        Err(e) => Err(e@),
    }
}

/// Where loops and scenes are kept.  What is on disk changes, so a
/// listing is not a function of the directory: an implementation may
/// state, in `may_list`, which answers it can give for a directory (any,
/// unless it says more).
pub trait PersistenceFileSystem {
    /// Whether `listing` is an answer this store may give for `directory`.
    closed spec fn may_list(&self, directory: Seq<char>, listing: Result<Seq<PersistenceFileValue>, Seq<char>>) -> bool {
        true
    }

    fn entries(&self, directory: &str) -> (r: Result<Vec<PersistenceFile>, String>)
        ensures
            self.may_list(directory@, entries_view(r)),
    ;

    fn file_exists(&self, path: &str) -> Result<bool, String>;

    fn read(&self, path: &str) -> Result<Vec<u8>, String>;

    fn write_new(&self, path: &str, bytes: &[u8]) -> Result<(), String>;

    fn rename(&self, from: &str, to: &str) -> Result<(), String>;

    /// Removes a file; a store that cannot remove says so.
    fn remove(&self, path: &str) -> Result<(), String> {
        Err(string_from("filesystem does not support removal"))
    }
}

/// A call to a browser of saved objects, as the browser records it.
pub enum ListingCall {
    Clear,
    Add(Seq<char>, Option<FileTime>, bool),
    Divisions,
}

/// The `add` calls that hand a browser the files `s`, in order.
pub open spec fn adds_of(s: Seq<PersistenceFileValue>) -> Seq<ListingCall> {
    s.map_values(|v: PersistenceFileValue| ListingCall::Add(v.0, v.1, v.2))
}

/// A browser that lists saved loops or scenes.  An implementation keeps,
/// in `listing_calls`, the calls it was given, oldest first; each method
/// states the record it adds.
pub trait PersistenceBrowser {
    /// The calls made so far, oldest first.
    closed spec fn listing_calls(&self) -> Seq<ListingCall> {
        Seq::empty()
    }

    fn clear(&mut self)
        ensures
            final(self).listing_calls() == old(self).listing_calls().push(ListingCall::Clear),
    ;

    fn add(&mut self, path: String, modified: Option<FileTime>, default_name: bool)
        ensures
            final(self).listing_calls() == old(self).listing_calls().push(ListingCall::Add(path@, modified, default_name)),
    ;

    fn divisions(&mut self)
        ensures
            final(self).listing_calls() == old(self).listing_calls().push(ListingCall::Divisions),
    ;
}

// ------------------------------------------------------------------
// The listing of saved files
// ------------------------------------------------------------------

/// Plain values of listed files.
pub open spec fn files_view(v: Seq<PersistenceFile>) -> Seq<PersistenceFileValue> {
    v.map_values(|f: PersistenceFile| f@)
}

/// Plain values of a browser listing.
pub open spec fn listing_view(v: Seq<ListedFile>) -> Seq<PersistenceFileValue> {
    v.map_values(|f: ListedFile| f@)
}

/// A file whose name starts with `prefix` and ends with `ext`.
pub open spec fn saved_file_selected(e: PersistenceFileValue, prefix: Seq<char>, ext: Seq<char>) -> bool {
    e.2 && match path_file_name(e.0) {
        Some(n) => has_prefix(n, prefix) && has_suffix(n, ext),
        None => false,
    }
}

/// The selected files of a listing, in listing order.
pub open spec fn selected_files(es: Seq<PersistenceFileValue>, prefix: Seq<char>, ext: Seq<char>) -> Seq<
    PersistenceFileValue,
>
    decreases es.len(),
{
    if es.len() == 0 {
        Seq::empty()
    } else {
        let rest = selected_files(es.drop_last(), prefix, ext);
        if saved_file_selected(es.last(), prefix, ext) {
            rest.push(es.last())
        } else {
            rest
        }
    }
}

/// Where a file goes among files sorted by path: before the first whose
/// path comes after its own.
pub open spec fn path_insert_position(items: Seq<PersistenceFileValue>, e: PersistenceFileValue) -> int
    decreases items.len(),
{
    if items.len() == 0 {
        0
    } else if path_less(e.0, items[0].0) {
        0
    } else {
        1 + path_insert_position(items.drop_first(), e)
    }
}

/// Files sorted by path, stably (by inserting each in turn).
pub open spec fn sorted_by_path(s: Seq<PersistenceFileValue>) -> Seq<PersistenceFileValue>
    decreases s.len(),
{
    if s.len() == 0 {
        Seq::empty()
    } else {
        let rest = sorted_by_path(s.drop_last());
        rest.insert(path_insert_position(rest, s.last()), s.last())
    }
}

/// A path whose stem has no `-` (or that has no stem) carries no given name.
pub open spec fn generated_name(path: Seq<char>) -> bool {
    match path_file_stem(path) {
        Some(s) => !s.contains('-'),
        None => true,
    }
}

/// A listed file as the browser is given it.
pub open spec fn listed_value(e: PersistenceFileValue) -> PersistenceFileValue {
    (e.0, e.1, generated_name(e.0))
}

/// What a browser of saved objects is given of a listing: the selected
/// files in path order, each with whether its name is generated.
pub open spec fn saved_listing(es: Seq<PersistenceFileValue>, prefix: Seq<char>, ext: Seq<char>) -> Seq<
    PersistenceFileValue,
> {
    listed_values(sorted_by_path(selected_files(es, prefix, ext)))
}

/// `listed_value` of each file.
pub open spec fn listed_values(s: Seq<PersistenceFileValue>) -> Seq<PersistenceFileValue> {
    s.map_values(|e: PersistenceFileValue| listed_value(e))
}

proof fn lemma_path_insert_position_bound(items: Seq<PersistenceFileValue>, e: PersistenceFileValue)
    ensures
        0 <= path_insert_position(items, e) <= items.len(),
    decreases items.len(),
{
    if items.len() > 0 {
        lemma_path_insert_position_bound(items.drop_first(), e);
    }
}

/// Index at which a sorted insertion puts `e`.
fn path_sorted_position(items: &Vec<PersistenceFile>, e: &PersistenceFile) -> (r: usize)
    ensures
        r == path_insert_position(files_view(items@), e@),
        r <= items@.len(),
{
    let ghost v = files_view(items@);
    let n = items.len();
    let mut i: usize = 0;
    assert(v.skip(0) =~= v);
    proof { lemma_path_insert_position_bound(v, e@); }
    while i < n
        invariant
            i <= n,
            n == v.len(),
            v == files_view(items@),
            path_insert_position(v, e@) == i + path_insert_position(v.skip(i as int), e@),
            path_insert_position(v.skip(i as int), e@) <= n - i,
        decreases n - i,
    {
        proof {
            assert(v.skip(i as int)[0] == items@[i as int]@);
            assert(v.skip(i as int).drop_first() =~= v.skip(i + 1));
        }
        if path_precedes(e.path.as_str(), items[i].path.as_str()) {
            return i;
        }
        proof {
            lemma_path_insert_position_bound(v.skip(i + 1), e@);
        }
        i = i + 1;
    }
    i
}

/// The files of a listing that a browser of saved objects shows: those
/// whose name starts with `prefix` and ends with `extension`, in path
/// order (stable), each with whether its name is the generated one.
pub fn saved_files_listing(entries: &Vec<PersistenceFile>, prefix: &str, extension: &str) -> (r: Vec<ListedFile>)
    ensures
        listing_view(r@) == saved_listing(files_view(entries@), prefix@, extension@),
{
    let ghost ev = files_view(entries@);
    let n = entries.len();
    let mut sorted: Vec<PersistenceFile> = Vec::new();
    let mut i: usize = 0;
    assert(ev.take(0) =~= Seq::<PersistenceFileValue>::empty());
    assert(files_view(sorted@) =~= Seq::<PersistenceFileValue>::empty());
    while i < n
        invariant
            i <= n,
            n == entries@.len(),
            ev == files_view(entries@),
            files_view(sorted@) == sorted_by_path(selected_files(ev.take(i as int), prefix@, extension@)),
        decreases n - i,
    {
        let entry = &entries[i];
        proof {
            assert(ev.take(i + 1).drop_last() =~= ev.take(i as int));
            assert(ev.take(i + 1).last() == entry@);
        }
        let keep = entry.is_file && match file_name(entry.path.as_str()) {
            Some(name) => starts_with(name.as_str(), prefix) && ends_with(name.as_str(), extension),
            None => false,
        };
        let ghost prev = selected_files(ev.take(i as int), prefix@, extension@);
        proof {
            if keep {
                assert(selected_files(ev.take(i + 1), prefix@, extension@) == prev.push(entry@));
                assert(prev.push(entry@).drop_last() =~= prev);
                assert(prev.push(entry@).last() == entry@);
            } else {
                assert(selected_files(ev.take(i + 1), prefix@, extension@) == prev);
            }
        }
        if keep {
            let copy = PersistenceFile {
                path: string_from(entry.path.as_str()),
                modified: entry.modified,
                is_file: entry.is_file,
            };
            let ghost before = sorted@;
            let pos = path_sorted_position(&sorted, &copy);
            sorted.insert(pos, copy);
            assert(files_view(sorted@) =~= files_view(before).insert(pos as int, copy@));
        }
        i = i + 1;
    }
    assert(ev.take(n as int) =~= ev);
    let ghost sv = files_view(sorted@);
    let m = sorted.len();
    let mut r: Vec<ListedFile> = Vec::new();
    let mut j: usize = 0;
    while j < m
        invariant
            j <= m,
            m == sorted@.len(),
            sv == files_view(sorted@),
            listing_view(r@) == listed_values(sv.take(j as int)),
        decreases m - j,
    {
        let f = &sorted[j];
        let default_name = match file_stem(f.path.as_str()) {
            Some(stem) => !contains_char(stem.as_str(), '-'),
            None => true,
        };
        let item = ListedFile { path: string_from(f.path.as_str()), modified: f.modified, default_name };
        assert(sv[j as int] == f@);
        assert(item@ == listed_value(sv[j as int]));
        let ghost before = r@;
        r.push(item);
        assert(listing_view(r@) =~= listing_view(before).push(item@));
        assert(sv.take(j + 1) =~= sv.take(j as int).push(sv[j as int]));
        assert(listed_values(sv.take(j + 1)) =~= listed_values(sv.take(j as int)).push(listed_value(sv[j as int])));
        j = j + 1;
    }
    assert(sv.take(m as int) =~= sv);
    r
}


/// Where a file is inserted: after every file whose path does not come
/// after its own, before the first one whose path does.
proof fn lemma_path_insert_position_places(items: Seq<PersistenceFileValue>, e: PersistenceFileValue)
    ensures
        forall|k: int| 0 <= k < path_insert_position(items, e) ==> !path_less(e.0, #[trigger] items[k].0),
        path_insert_position(items, e) < items.len() ==> path_less(e.0, items[path_insert_position(items, e)].0),
    decreases items.len(),
{
    if items.len() > 0 && !path_less(e.0, items[0].0) {
        lemma_path_insert_position_places(items.drop_first(), e);
        lemma_path_insert_position_bound(items.drop_first(), e);
        assert forall|k: int| 0 <= k < path_insert_position(items, e) implies !path_less(
            e.0,
            #[trigger] items[k].0,
        ) by {
            if k > 0 {
                assert(items[k] == items.drop_first()[k - 1]);
            }
        }
        if path_insert_position(items, e) < items.len() {
            assert(items[path_insert_position(items, e)] == items.drop_first()[path_insert_position(
                items.drop_first(),
                e,
            )]);
        }
    }
}

/// Files sorted by path are in path order.
proof fn lemma_sorted_by_path_in_order(s: Seq<PersistenceFileValue>)
    ensures
        sorted_by_path(s).len() == s.len(),
        forall|i: int, j: int|
            0 <= i < j < sorted_by_path(s).len() ==> !path_less(
                #[trigger] sorted_by_path(s)[j].0,
                #[trigger] sorted_by_path(s)[i].0,
            ),
    decreases s.len(),
{
    if s.len() > 0 {
        let rest = sorted_by_path(s.drop_last());
        let x = s.last();
        lemma_sorted_by_path_in_order(s.drop_last());
        lemma_path_insert_position_bound(rest, x);
        lemma_path_insert_position_places(rest, x);
        let p = path_insert_position(rest, x);
        let r = rest.insert(p, x);
        assert(sorted_by_path(s) == r);
        assert forall|i: int, j: int| 0 <= i < j < r.len() implies !path_less(#[trigger] r[j].0, #[trigger] r[i].0) by {
            if j < p {
                assert(r[i] == rest[i] && r[j] == rest[j]);
            } else if j == p {
                assert(r[i] == rest[i] && r[j] == x);
            } else if i < p {
                assert(r[i] == rest[i] && r[j] == rest[j - 1]);
            } else if i == p {
                assert(r[i] == x && r[j] == rest[j - 1]);
                if path_less(rest[j - 1].0, x.0) {
                    lemma_path_less_transitive(rest[j - 1].0, x.0, rest[p].0);
                    if j - 1 == p {
                        lemma_path_less_irreflexive(rest[p].0);
                    }
                }
            } else {
                assert(r[i] == rest[i - 1] && r[j] == rest[j - 1]);
            }
        }
    }
}

/// The listing that a browser of saved objects is given is in path
/// order: no file in it comes after a file whose path follows its own.
pub proof fn law_saved_listing_in_path_order(es: Seq<PersistenceFileValue>, prefix: Seq<char>, ext: Seq<char>)
    ensures
        forall|i: int, j: int|
            0 <= i < j < saved_listing(es, prefix, ext).len() ==> !path_less(
                #[trigger] saved_listing(es, prefix, ext)[j].0,
                #[trigger] saved_listing(es, prefix, ext)[i].0,
            ),
{
    let sorted = sorted_by_path(selected_files(es, prefix, ext));
    lemma_sorted_by_path_in_order(selected_files(es, prefix, ext));
    let l = saved_listing(es, prefix, ext);
    assert(l.len() == sorted.len());
    assert forall|i: int, j: int| 0 <= i < j < l.len() implies !path_less(#[trigger] l[j].0, #[trigger] l[i].0) by {
        assert(l[j].0 == sorted[j].0);
        assert(l[i].0 == sorted[i].0);
    }
}

// ------------------------------------------------------------------
// Saving, renaming and loading
// ------------------------------------------------------------------

/// The audio and metadata paths of a loop saved in `library`: the same
/// stub, named by the hash, with the audio extension and with `.xml`.
pub open spec fn loop_save_paths(
    library: Seq<char>,
    hash: Seq<u8>,
    name: Option<Seq<char>>,
    audio_ext: Seq<char>,
) -> (Seq<char>, Seq<char>) {
    (
        library + seq!['/'] + stub_spec("loop"@, hex_upper(hash), name, Some(audio_ext)),
        library + seq!['/'] + stub_spec("loop"@, hex_upper(hash), name, Some(".xml"@)),
    )
}

/// The error of a metadata write that failed after the audio was written:
/// the write's error, and the removal's too where the audio could not be
/// taken back.
pub open spec fn rollback_error(error: Seq<char>, audio: Seq<char>, removal: Result<(), Seq<char>>) -> Seq<
    char,
> {
    match removal {
        Ok(()) => error,
        Err(e) => error + "; additionally could not roll back '"@ + audio + "': "@ + e,
    }
}

/// Texts joined by `sep`.
pub open spec fn joined(parts: Seq<Seq<char>>, sep: Seq<char>) -> Seq<char>
    decreases parts.len(),
{
    if parts.len() == 0 {
        Seq::empty()
    } else if parts.len() == 1 {
        parts[0]
    } else {
        joined(parts.drop_last(), sep) + sep + parts.last()
    }
}

/// Plain values of texts.
pub open spec fn strings_view(v: Seq<String>) -> Seq<Seq<char>> {
    v.map_values(|s: String| s@)
}

/// The error of a rename that failed: which move, why, and the errors of
/// the moves that could not be taken back.
pub open spec fn rename_error(from: Seq<char>, to: Seq<char>, error: Seq<char>, rollback: Seq<Seq<char>>) -> Seq<
    char,
> {
    "could not rename '"@ + from + "' to '"@ + to + "': "@ + error + (if rollback.len() == 0 {
        Seq::empty()
    } else {
        "; rollback failed: "@ + joined(rollback, ", "@)
    })
}

fn rollback_error_text(error: &str, audio: &str, removal: &Result<(), String>) -> (r: String)
    ensures
        r@ == rollback_error(
            error@,
            audio@,
            match removal {
                Ok(()) => Ok(()),
                Err(e) => Err(e@),
            },
        ),
{
    let mut m = string_from(error);
    match removal {
        Ok(()) => {},
        Err(e) => {
            push_str(&mut m, "; additionally could not roll back '");
            push_str(&mut m, audio);
            push_str(&mut m, "': ");
            push_str(&mut m, e.as_str());
        },
    }
    m
}

fn rename_error_text(from: &str, to: &str, error: &str, rollback: &Vec<String>) -> (r: String)
    ensures
        r@ == rename_error(from@, to@, error@, strings_view(rollback@)),
{
    let mut m = string_from("could not rename '");
    push_str(&mut m, from);
    push_str(&mut m, "' to '");
    push_str(&mut m, to);
    push_str(&mut m, "': ");
    push_str(&mut m, error);
    let ghost head = m@;
    let n = rollback.len();
    if n > 0 {
        push_str(&mut m, "; rollback failed: ");
        let ghost front = m@;
        let mut i: usize = 0;
        while i < n
            invariant
                i <= n,
                n == rollback@.len(),
                m@ == front + joined(strings_view(rollback@).take(i as int), ", "@),
            decreases n - i,
        {
            if i > 0 {
                push_str(&mut m, ", ");
            }
            push_str(&mut m, rollback[i].as_str());
            proof {
                let parts = strings_view(rollback@).take(i + 1);
                assert(parts.drop_last() =~= strings_view(rollback@).take(i as int));
                assert(parts.last() == rollback@[i as int]@);
                if i == 0 {
                    assert(joined(strings_view(rollback@).take(0), ", "@) =~= Seq::<char>::empty());
                }
            }
            i = i + 1;
        }
        assert(strings_view(rollback@).take(n as int) =~= strings_view(rollback@));
    }
    m
}

/// Loading and saving through a file store; `events` is where the
/// application keeps its queues of requested saves and loads.
pub struct PersistenceRuntime<F, E> {
    pub filesystem: F,
    pub events: E,
}

impl<F: PersistenceFileSystem, E> PersistenceRuntime<F, E> {
    pub fn new(filesystem: F, events: E) -> (r: Self)
        ensures
            r.filesystem == filesystem,
            r.events == events,
    {
        PersistenceRuntime { filesystem, events }
    }

    /// Clears `browser` and gives it the saved files of `directory` whose
    /// names start with `prefix` and end with `extension`, as
    /// `saved_files_listing` orders them, then lets it place its
    /// divisions.  A directory that cannot be listed gives the store's
    /// error and leaves the browser cleared.
    pub fn scan_browser<B: PersistenceBrowser>(
        &self,
        browser: &mut B,
        directory: &str,
        prefix: &str,
        extension: &str,
    ) -> (r: Result<(), String>)
        ensures
            exists|listing: Result<Seq<PersistenceFileValue>, Seq<char>>|
                self.filesystem.may_list(directory@, listing) && #[trigger] browser_scanned(
                    old(browser).listing_calls(),
                    final(browser).listing_calls(),
                    listing,
                    prefix@,
                    extension@,
                    r,
                ),
    {
        browser.clear();
        let ghost cleared = browser.listing_calls();
        let answer = self.filesystem.entries(directory);
        let ghost lv = entries_view(answer);
        let entries = match answer {
            Ok(es) => es,
            Err(e) => {
                proof {
                    assert(browser_scanned(old(browser).listing_calls(), browser.listing_calls(), lv, prefix@, extension@, Err(e)));
                }
                return Err(e);
            },
        };
        let listed = saved_files_listing(&entries, prefix, extension);
        let ghost want = saved_listing(files_view(entries@), prefix@, extension@);
        let n = listed.len();
        let mut i: usize = 0;
        assert(adds_of(want.take(0)) =~= Seq::<ListingCall>::empty());
        assert(cleared + adds_of(want.take(0)) =~= cleared);
        while i < n
            invariant
                i <= n,
                n == listed@.len(),
                listing_view(listed@) == want,
                browser.listing_calls() == cleared + adds_of(want.take(i as int)),
            decreases n - i,
        {
            let f = &listed[i];
            assert(want[i as int] == f@);
            browser.add(string_from(f.path.as_str()), f.modified, f.default_name);
            assert(adds_of(want.take(i + 1)) =~= adds_of(want.take(i as int)).push(
                ListingCall::Add(want[i as int].0, want[i as int].1, want[i as int].2),
            ));
            i = i + 1;
        }
        assert(want.take(n as int) =~= want);
        browser.divisions();
        proof {
            assert(browser_scanned(old(browser).listing_calls(), browser.listing_calls(), lv, prefix@, extension@, Ok(())));
        }
        Ok(())
    }

    /// Saves a loop given as plain values: refuses one that was saved
    /// already, names both files by the MD5 of `audio`, refuses to
    /// overwrite an existing audio file, writes the audio and then the
    /// metadata, and takes the audio back if the metadata cannot be
    /// written.  Gives the two paths and the hash.
    pub fn save_loop_contents(
        &self,
        saved: Option<[u8; 16]>,
        audio: &[u8],
        name: Option<&str>,
        nbeats: i64,
        pulse_length: u32,
        library: &str,
        audio_ext: &str,
    ) -> (r: Result<(String, String, [u8; 16]), String>)
        ensures
            saved is Some ==> (r matches Err(m) && m@ == "loop marked already saved"@),
            saved is None && audio@.len() * 8 > u64::MAX ==> (r matches Err(m) && m@
                == "loop too large to hash"@),
            r matches Ok((a, d, h)) ==> saved is None && h@ == md5_digest(audio@) && (a@, d@)
                == loop_save_paths(library@, md5_digest(audio@), opt_view(name), audio_ext@),
    {
        if saved.is_some() {
            return Err(string_from("loop marked already saved"));
        }
        if audio.len() as u64 > u64::MAX / 8 {
            return Err(string_from("loop too large to hash"));
        }
        let hash = md5_audio(audio);
        let text = encode_hash(&hash);
        let audio_path = saveable_path(library, "loop", text.as_str(), name, Some(audio_ext));
        let data_path = saveable_path(library, "loop", text.as_str(), name, Some(".xml"));
        match self.filesystem.file_exists(audio_path.as_str()) {
            Err(e) => {
                return Err(e);
            },
            Ok(true) => {
                return Err(string_from("MD5 collision while saving loop- file exists!"));
            },
            Ok(false) => {},
        }
        match self.filesystem.write_new(audio_path.as_str(), audio) {
            Err(e) => {
                let mut m = string_from("Couldn't open file: ");
                push_str(&mut m, e.as_str());
                return Err(m);
            },
            Ok(()) => {},
        }
        let xml = loop_metadata_xml(nbeats, pulse_length);
        match self.filesystem.write_new(data_path.as_str(), xml.as_str().as_bytes()) {
            Err(e) => {
                let removal = self.filesystem.remove(audio_path.as_str());
                return Err(rollback_error_text(e.as_str(), audio_path.as_str(), &removal));
            },
            Ok(()) => {},
        }
        Ok((audio_path, data_path, hash))
    }

    /// Saves `source` into `library` (see `save_loop_contents`) and, when
    /// both files were written, marks it saved with its hash.  Gives the
    /// audio and metadata paths, which share the stub named by the hash.
    pub fn save_loop<S: LoopSource>(&self, source: &mut S, library: &str, audio_ext: &str) -> (r: Result<
        (String, String),
        String,
    >)
        ensures
            r matches Ok((a, d)) ==> exists|audio: Seq<u8>, name: Option<Seq<char>>|
                (a@, d@) == #[trigger] loop_save_paths(library@, md5_digest(audio), name, audio_ext@),
    {
        let saved = source.save_hash();
        let bytes = source.audio_bytes();
        let name = source.object_name();
        let ghost audio = bytes@;
        let ghost given = opt_view(name);
        let result = self.save_loop_contents(
            saved,
            bytes,
            name,
            source.nbeats(),
            source.pulse_length(),
            library,
            audio_ext,
        );
        match result {
            Ok((a, d, h)) => {
                assert((a@, d@) == loop_save_paths(library@, md5_digest(audio), given, audio_ext@));
                source.set_save_hash(h);
                Ok((a, d))
            },
            Err(e) => Err(e),
        }
    }

    /// Renames every file of a saved object (`<stub><ext>` for each of
    /// `extensions` that exists) to the stub with `new_name`, as one
    /// operation: an existing destination is refused, and the moves done
    /// are taken back when a later one fails.  Gives the new stub.
    pub fn rename_saveable(&self, stub: &str, base_len: usize, new_name: Option<&str>, extensions: &[&str]) -> (r:
        Result<String, String>)
        requires
            !split_would_split_char(stub.spec_bytes(), base_len as int),
        ensures
            match split_spec(stub.spec_bytes(), base_len as int) {
                SplitOutcome::BadFilename => r matches Err(e) && e@ == "invalid filename: "@ + stub@,
                SplitOutcome::BadHash => r matches Err(e) && e@ == "invalid hash in filename: "@ + stub@,
                SplitOutcome::Parts(b, h, _) => r matches Ok(p) ==> exists|bc: Seq<char>, hc: Seq<char>|
                    encode_utf8(bc) == b && encode_utf8(hc) == h && p@ == #[trigger] stub_spec(
                        bc,
                        hc,
                        opt_view(new_name),
                        None,
                    ),
            },
    {
        let (base, hash) = match split_filename(stub, base_len) {
            Ok((b, h, _)) => (b, h),
            Err(e) => {
                return Err(e);
            },
        };
        let renamed = saveable_stub(base.as_str(), hash.as_str(), new_name, None);
        let ghost target = renamed@;
        assert(target == stub_spec(base@, hash@, opt_view(new_name), None));
        assert(split_spec(stub.spec_bytes(), base_len as int) is Parts);
        let mut pairs: Vec<(String, String)> = Vec::new();
        let n = extensions.len();
        let mut i: usize = 0;
        while i < n
            invariant
                i <= n,
                n == extensions@.len(),
            decreases n - i,
        {
            let ext = extensions[i];
            let mut from = string_from(stub);
            push_str(&mut from, ext);
            let mut to = string_from(renamed.as_str());
            push_str(&mut to, ext);
            match self.filesystem.file_exists(from.as_str()) {
                Ok(true) => {
                    pairs.push((from, to));
                },
                _ => {},
            }
            i = i + 1;
        }
        let m = pairs.len();
        if m == 0 {
            let mut e = string_from("no persisted files found for '");
            push_str(&mut e, stub);
            push_str(&mut e, "'");
            return Err(e);
        }
        let mut k: usize = 0;
        while k < m
            invariant
                k <= m,
                m == pairs@.len(),
                split_spec(stub.spec_bytes(), base_len as int) is Parts,
            decreases m - k,
        {
            match self.filesystem.file_exists(pairs[k].1.as_str()) {
                Err(e) => {
                    return Err(e);
                },
                Ok(true) => {
                    let mut e = string_from("rename destination already exists: ");
                    push_str(&mut e, pairs[k].1.as_str());
                    return Err(e);
                },
                Ok(false) => {},
            }
            k = k + 1;
        }
        let mut moved: usize = 0;
        while moved < m
            invariant
                moved <= m,
                m == pairs@.len(),
                renamed@ == target,
                split_spec(stub.spec_bytes(), base_len as int) is Parts,
            decreases m - moved,
        {
            match self.filesystem.rename(pairs[moved].0.as_str(), pairs[moved].1.as_str()) {
                Err(error) => {
                    let mut rollback_errors: Vec<String> = Vec::new();
                    let mut j: usize = moved;
                    while j > 0
                        invariant
                            j <= moved,
                            moved < m,
                            m == pairs@.len(),
                        decreases j,
                    {
                        j = j - 1;
                        match self.filesystem.rename(pairs[j].1.as_str(), pairs[j].0.as_str()) {
                            Err(e) => {
                                rollback_errors.push(e);
                            },
                            Ok(()) => {},
                        }
                    }
                    return Err(
                        rename_error_text(
                            pairs[moved].0.as_str(),
                            pairs[moved].1.as_str(),
                            error.as_str(),
                            &rollback_errors,
                        ),
                    );
                },
                Ok(()) => {},
            }
            moved = moved + 1;
        }
        Ok(renamed)
    }

    /// Reads the metadata saved beside a loop (see
    /// `loop_metadata_from_bytes`); a file that cannot be read gives the
    /// store's error.
    pub fn load_loop_metadata(&self, data: &str) -> (r: Result<LoopMetadata, String>)
        ensures
            r is Ok ==> exists|bytes: Seq<u8>|
                valid_utf8(bytes) && loop_metadata_result_view(r) == #[trigger] metadata_of_bytes(bytes),
    {
        match self.filesystem.read(data) {
            Ok(bytes) => {
                let r = loop_metadata_from_bytes(bytes.as_slice());
                assert(r is Ok ==> loop_metadata_result_view(r) == metadata_of_bytes(bytes@));
                r
            },
            Err(e) => Err(e),
        }
    }

    /// Writes `scene` (as `scene_xml` renders it) to a new file at `path`;
    /// the store's refusal is reported with the path.
    pub fn save_scene(&self, path: &str, scene: &Scene) -> (r: Result<(), String>)
        ensures
            r matches Err(e) ==> exists|m: Seq<char>| e@ == #[trigger] save_scene_error(path@, m),
    {
        let xml = scene_xml(scene);
        match self.filesystem.write_new(path, xml.as_str().as_bytes()) {
            Ok(()) => Ok(()),
            Err(error) => {
                let mut e = string_from("could not save scene '");
                push_str(&mut e, path);
                push_str(&mut e, "': ");
                push_str(&mut e, error.as_str());
                assert(e@ == save_scene_error(path@, error@));
                Err(e)
            },
        }
    }

    /// Reads the scene saved in `data` (see `scene_from_bytes`); a file
    /// that cannot be read gives the store's error.
    pub fn read_scene(&self, data: &str, default_loop_id: i32) -> (r: Result<SceneLoad, String>)
        ensures
            r is Ok ==> exists|bytes: Seq<u8>|
                valid_utf8(bytes) && scene_view(r) == #[trigger] scene_of_bytes(bytes, default_loop_id),
    {
        match self.filesystem.read(data) {
            Ok(bytes) => {
                let r = scene_from_bytes(bytes.as_slice(), default_loop_id);
                assert(r is Ok ==> scene_view(r) == scene_of_bytes(bytes@, default_loop_id));
                r
            },
            Err(e) => Err(e),
        }
    }
}

/// The metadata that a UTF-8 document describes.
pub open spec fn metadata_of_bytes(bytes: Seq<u8>) -> Result<(bool, Option<i64>, Option<u32>), Seq<char>> {
    match xml_root_element(decode_utf8(bytes)) {
        Ok(root) => loop_metadata_spec(root),
        Err(e) => Err(e),
    }
}

/// Reads loop metadata from the bytes of its document: bytes that are not
/// UTF-8 are refused, a text as `parse_loop_metadata_xml` reads it.
pub fn loop_metadata_from_bytes(bytes: &[u8]) -> (r: Result<LoopMetadata, String>)
    ensures
        !valid_utf8(bytes@) ==> r is Err,
        valid_utf8(bytes@) ==> loop_metadata_result_view(r) == metadata_of_bytes(bytes@),
{
    match text_from_utf8(bytes) {
        Ok(text) => parse_loop_metadata_xml(text.as_str()),
        Err(e) => Err(e),
    }
}

/// The scene that a UTF-8 document describes.
pub open spec fn scene_of_bytes(bytes: Seq<u8>, default_loop_id: i32) -> Result<SceneValue, Seq<char>> {
    match xml_document(decode_utf8(bytes)) {
        Ok(d) => scene_spec(d, default_loop_id),
        Err(e) => Err(e),
    }
}

/// Reads a scene from the bytes of its document: bytes that are not
/// UTF-8 are refused, a text as `parse_scene_xml` reads it.
pub fn scene_from_bytes(bytes: &[u8], default_loop_id: i32) -> (r: Result<SceneLoad, String>)
    ensures
        !valid_utf8(bytes@) ==> r is Err,
        valid_utf8(bytes@) ==> scene_view(r) == scene_of_bytes(bytes@, default_loop_id),
{
    match text_from_utf8(bytes) {
        Ok(text) => parse_scene_xml(text.as_str(), default_loop_id),
        Err(e) => Err(e),
    }
}

/// A loop of a scene to load from the library: its file, its id and its
/// volume as the scene's text gives it.
#[derive(Debug)]
pub struct SceneLoopLoad {
    pub path: String,
    pub loop_id: i32,
    pub volume: Option<String>,
}

/// The loops of `scene` to load from `library`, in the scene's order: each
/// loop's file is `<library>/loop-<hash>`.
pub fn scene_loop_loads(library: &str, scene: &SceneLoad) -> (r: Vec<SceneLoopLoad>)
    ensures
        r@.len() == scene.loops@.len(),
        forall|k: int|
            0 <= k < r@.len() ==> #[trigger] r@[k].path@ == library@ + seq!['/'] + stub_spec(
                "loop"@,
                scene.loops@[k].hash@,
                None,
                None,
            ) && r@[k].loop_id == scene.loops@[k].loop_id && opt_string(r@[k].volume) == opt_string(
                scene.loops@[k].volume,
            ),
{
    let mut r: Vec<SceneLoopLoad> = Vec::new();
    let mut k: usize = 0;
    while k < scene.loops.len()
        invariant
            k <= scene.loops@.len(),
            r@.len() == k,
            forall|j: int|
                0 <= j < k ==> #[trigger] r@[j].path@ == library@ + seq!['/'] + stub_spec(
                    "loop"@,
                    scene.loops@[j].hash@,
                    None,
                    None,
                ) && r@[j].loop_id == scene.loops@[j].loop_id && opt_string(r@[j].volume) == opt_string(
                    scene.loops@[j].volume,
                ),
        decreases scene.loops@.len() - k,
    {
        let item = &scene.loops[k];
        let path = saveable_path(library, "loop", item.hash.as_str(), None, None);
        proof {
            reveal_strlit("loop");
        }
        let volume = match &item.volume {
            Some(v) => Some(string_from(v.as_str())),
            None => None,
        };
        r.push(SceneLoopLoad { path, loop_id: item.loop_id, volume });
        k = k + 1;
    }
    r
}

/// The text of an optional string.
pub open spec fn opt_string(s: Option<String>) -> Option<Seq<char>> {
    match s {
        Some(t) => Some(t@),
        None => None,
    }
}

/// The error of a scene that could not be written.
pub open spec fn save_scene_error(path: Seq<char>, message: Seq<char>) -> Seq<char> {
    "could not save scene '"@ + path + "': "@ + message
}

/// The records a browser keeps of a scan (see
/// `PersistenceRuntime::scan_browser`): it was cleared; a listing that
/// could not be read is the result; otherwise it was handed the saved
/// files of the listing, in path order, then placed its divisions.
pub open spec fn browser_scanned(
    before: Seq<ListingCall>,
    after: Seq<ListingCall>,
    listing: Result<Seq<PersistenceFileValue>, Seq<char>>,
    prefix: Seq<char>,
    extension: Seq<char>,
    r: Result<(), String>,
) -> bool {
    match listing {
        Err(e) => (r matches Err(m) && m@ == e) && after == before.push(ListingCall::Clear),
        Ok(es) => r is Ok && after == before.push(ListingCall::Clear) + adds_of(saved_listing(es, prefix, extension)).push(
            ListingCall::Divisions,
        ),
    }
}

} // verus!
