//! Reading the metadata saved beside a loop, and scenes.

use vstd::prelude::*;
use crate::core_persistence::LOOP_FORMAT_VERSION;
use crate::text::{
    trim, trim_spec, parse_i64, parse_i64_spec, parse_u32, parse_u32_spec, digits_value,
    is_decimal_digit, str_eq,
};
use crate::xml::{XmlElement, parse_xml_root, xml_root_element, attribute_spec, XmlElementValue, XmlNode, XmlNodeValue, XmlAttribute, nodes_view, xml_document, parse_xml_document, attribute_in};
use crate::text::{string_from, push_str, push_decimal_i64, decimal_int};

verus! {

/// What a loop's metadata document records.
#[derive(Debug, Clone, PartialEq, Eq)]
pub struct LoopMetadata {
    /// Loops saved with format version 1 or later have smoothed end points.
    pub smooth_end: bool,
    pub nbeats: Option<i64>,
    pub pulse_length: Option<u32>,
}

/// Number of leading decimal digits.
pub open spec fn leading_digits(s: Seq<char>) -> nat
    decreases s.len(),
{
    if s.len() > 0 && is_decimal_digit(s[0]) {
        1 + leading_digits(s.drop_first())
    } else {
        0
    }
}

/// The C `atoi` that the loaders use: white space is trimmed, an optional
/// `-` is read, then the leading digits; without digits the default is
/// returned, and a value beyond `i32::MAX` reads as `i32::MAX` before the
/// sign is applied.
pub open spec fn atoi_spec(s: Option<Seq<char>>, default: i32) -> i32 {
    match s {
        None => default,
        Some(text) => {
            let t = trim_spec(text);
            let neg = t.len() > 0 && t[0] == '-';
            let rest = if neg { t.drop_first() } else { t };
            let digits = rest.take(leading_digits(rest) as int);
            if digits.len() == 0 {
                default
            } else {
                let v: int = if digits_value(digits) <= i32::MAX {
                    digits_value(digits) as int
                } else {
                    i32::MAX as int
                };
                (if neg { -v } else { v }) as i32
            }
        },
    }
}

proof fn lemma_leading_digits(s: Seq<char>, i: int)
    requires
        0 <= i <= s.len(),
        forall|k: int| 0 <= k < i ==> is_decimal_digit(#[trigger] s[k]),
    ensures
        leading_digits(s) >= i,
        i < s.len() && !is_decimal_digit(s[i]) ==> leading_digits(s) == i,
        i == s.len() ==> leading_digits(s) == i,
    decreases i,
{
    if i > 0 {
        lemma_leading_digits(s.drop_first(), i - 1);
    }
}

/// `atoi` as the loaders use it.
pub fn atoi(s: Option<&str>, default: i32) -> (r: i32)
    ensures
        r == atoi_spec(
            match s {
                Some(t) => Some(t@),
                None => None,
            },
            default,
        ),
{
    let text = match s {
        Some(t) => t,
        None => return default,
    };
    let t = trim(text);
    let n = t.unicode_len();
    let neg = n > 0 && t.get_char(0) == '-';
    let from: usize = if neg { 1 } else { 0 };
    let ghost rest = if neg { t@.drop_first() } else { t@ };
    assert(rest =~= t@.skip(from as int));
    let mut i = from;
    let mut acc: u64 = 0;
    while i < n && '0' <= t.get_char(i) && t.get_char(i) <= '9'
        invariant
            from <= i <= n,
            n == t@.len(),
            rest == t@.skip(from as int),
            forall|k: int| 0 <= k < i - from ==> is_decimal_digit(#[trigger] rest[k]),
            acc <= 2147483648u64,
            digits_value(rest.take(i - from)) <= i32::MAX ==> acc == digits_value(rest.take(i - from)),
            digits_value(rest.take(i - from)) > i32::MAX ==> acc == 2147483648u64,
        decreases n - i,
    {
        let c = t.get_char(i);
        let d = (c as u32 - 48) as u64;
        proof {
            assert(rest.take(i + 1 - from).drop_last() =~= rest.take(i - from));
            assert(rest.take(i + 1 - from).last() == c);
        }
        if acc <= 2147483647u64 {
            acc = acc * 10 + d;
            if acc > 2147483647u64 {
                acc = 2147483648u64;
            }
        }
        i = i + 1;
    }
    proof {
        lemma_leading_digits(rest, i - from);
    }
    if i == from {
        return default;
    }
    let v: i32 = if acc > 2147483647u64 { 2147483647i32 } else { acc as i32 };
    if neg { -v } else { v }
}

/// Reads an optional integer attribute: trimmed, then `str::parse`.
fn parse_opt_i64(v: Option<&str>) -> (r: Option<i64>)
    ensures
        r == match v {
            Some(t) => parse_i64_spec(trim_spec(t@)),
            None => None,
        },
{
    match v {
        Some(t) => parse_i64(trim(t)),
        None => None,
    }
}

fn parse_opt_u32(v: Option<&str>) -> (r: Option<u32>)
    ensures
        r == match v {
            Some(t) => parse_u32_spec(trim_spec(t@)),
            None => None,
        },
{
    match v {
        Some(t) => parse_u32(trim(t)),
        None => None,
    }
}

/// The metadata that a `<loop>` root element describes.
pub open spec fn loop_metadata_spec(root: XmlElementValue) -> Result<(bool, Option<i64>, Option<u32>), Seq<char>> {
    if root.0 != "loop"@ {
        Err("loop data has bad format"@)
    } else {
        let version = atoi_spec(attribute_spec(root.1, "version"@), 0);
        Ok((
            version >= LOOP_FORMAT_VERSION as i32,
            match attribute_spec(root.1, "nbeats"@) {
                Some(t) => parse_i64_spec(trim_spec(t)),
                None => None,
            },
            match attribute_spec(root.1, "pulselen"@) {
                Some(t) => parse_u32_spec(trim_spec(t)),
                None => None,
            },
        ))
    }
}

/// The plain value of a metadata result.
pub open spec fn loop_metadata_result_view(r: Result<LoopMetadata, String>) -> Result<(bool, Option<i64>, Option<u32>), Seq<char>> {
    match r {
        Ok(m) => Ok((m.smooth_end, m.nbeats, m.pulse_length)),
        Err(e) => Err(e@),
    }
}

/// Reads loop metadata from the root element of its document.
pub fn loop_metadata_from_root(root: &XmlElement) -> (r: Result<LoopMetadata, String>)
    ensures
        loop_metadata_result_view(r) == loop_metadata_spec(root@),
{
    if !str_eq(root.name.as_str(), "loop") {
        return Err(crate::text::string_from("loop data has bad format"));
    }
    let version = atoi(root.attribute("version"), 0);
    Ok(LoopMetadata {
        smooth_end: version >= LOOP_FORMAT_VERSION as i32,
        nbeats: parse_opt_i64(root.attribute("nbeats")),
        pulse_length: parse_opt_u32(root.attribute("pulselen")),
    })
}

/// Parses the metadata document saved beside a loop.
pub fn parse_loop_metadata_xml(xml: &str) -> (r: Result<LoopMetadata, String>)
    ensures
        loop_metadata_result_view(r) == match xml_root_element(xml@) {
            Ok(root) => loop_metadata_spec(root),
            Err(e) => Err(e),
        },
{
    match parse_xml_root(xml) {
        Ok(root) => loop_metadata_from_root(&root),
        Err(e) => Err(e),
    }
}

// ------------------------------------------------------------------
// Scenes
// ------------------------------------------------------------------

/// A loop of a scene: its hash, its id, and its volume as the scene's
/// text gives it (absent when the attribute is).
#[derive(Debug)]
pub struct SceneLoop {
    pub hash: String,
    pub loop_id: i32,
    pub volume: Option<String>,
}

/// A loop's state in a snapshot; volumes as the scene's text gives them.
#[derive(Debug)]
pub struct SceneSnapshotLoop {
    pub loop_id: i32,
    pub status: i32,
    pub loop_volume: Option<String>,
    pub trigger_volume: Option<String>,
}

/// A snapshot of a scene.
#[derive(Debug)]
pub struct SceneSnapshot {
    pub id: i32,
    pub name: String,
    pub loops: Vec<SceneSnapshotLoop>,
}

/// The loops to load and the snapshots to restore that a scene describes.
#[derive(Debug)]
pub struct SceneLoad {
    pub loops: Vec<SceneLoop>,
    pub snapshots: Vec<SceneSnapshot>,
}

pub type SceneLoopValue = (Seq<char>, i32, Option<Seq<char>>);

pub type SnapshotLoopValue = (i32, i32, Option<Seq<char>>, Option<Seq<char>>);

pub type SnapshotValue = (i32, Seq<char>, Seq<SnapshotLoopValue>);

pub type SceneValue = (Seq<SceneLoopValue>, Seq<SnapshotValue>);

pub open spec fn opt_text(s: Option<String>) -> Option<Seq<char>> {
    match s {
        Some(t) => Some(t@),
        None => None,
    }
}

pub open spec fn scene_loop_value(l: SceneLoop) -> SceneLoopValue {
    (l.hash@, l.loop_id, opt_text(l.volume))
}

pub open spec fn snapshot_loop_value(l: SceneSnapshotLoop) -> SnapshotLoopValue {
    (l.loop_id, l.status, opt_text(l.loop_volume), opt_text(l.trigger_volume))
}

pub open spec fn snapshot_value(s: SceneSnapshot) -> SnapshotValue {
    (s.id, s.name@, s.loops@.map_values(|l: SceneSnapshotLoop| snapshot_loop_value(l)))
}

/// The plain value of a scene read, or its error's text.
pub open spec fn scene_view(r: Result<SceneLoad, String>) -> Result<SceneValue, Seq<char>> {
    match r {
        Ok(s) => Ok(
            (
                s.loops@.map_values(|l: SceneLoop| scene_loop_value(l)),
                s.snapshots@.map_values(|x: SceneSnapshot| snapshot_value(x)),
            ),
        ),
        Err(e) => Err(e@),
    }
}

/// The attribute `name` of node `n`.
pub open spec fn node_attr(n: XmlNodeValue, name: Seq<char>) -> Option<Seq<char>> {
    attribute_spec(n.4, name)
}

/// `n` is an element whose parent is the node `parent`.
pub open spec fn child_element(n: XmlNodeValue, parent: usize) -> bool {
    n.2 && n.1 == Some(parent)
}

/// The `loopsnapshot` elements below the node `sid` among the first `k`
/// nodes, in document order.
pub open spec fn snapshot_loops_upto(doc: Seq<XmlNodeValue>, sid: usize, k: nat) -> Seq<SnapshotLoopValue>
    decreases k,
{
    if k == 0 {
        Seq::empty()
    } else {
        let n = doc[k - 1];
        snapshot_loops_upto(doc, sid, (k - 1) as nat) + (if child_element(n, sid) && n.3 == "loopsnapshot"@ {
            seq![
                (
                    atoi_spec(node_attr(n, "loopid"@), 0),
                    atoi_spec(node_attr(n, "status"@), 0),
                    node_attr(n, "loopvol"@),
                    node_attr(n, "triggervol"@),
                ),
            ]
        } else {
            Seq::empty()
        })
    }
}

/// The error for a scene loop without a hash.
pub open spec fn missing_hash_text(id: i32) -> Seq<char> {
    "scene definition for loop (id "@ + decimal_int(id as int) + ") has missing hash"@
}

/// The scene read from the first `k` nodes, under the root element `rid`:
/// each `loop` element below the root adds a loop (the first one without
/// a hash is an error), each `snapshot` element adds a snapshot with its
/// `loopsnapshot` elements; other nodes are passed over.
pub open spec fn scene_upto(doc: Seq<XmlNodeValue>, rid: usize, default_loop_id: i32, k: nat) -> Result<SceneValue, Seq<char>>
    decreases k,
{
    if k == 0 {
        Ok((Seq::empty(), Seq::empty()))
    } else {
        match scene_upto(doc, rid, default_loop_id, (k - 1) as nat) {
            Err(e) => Err(e),
            Ok(sc) => {
                let n = doc[k - 1];
                if !child_element(n, rid) {
                    Ok(sc)
                } else if n.3 == "loop"@ {
                    match node_attr(n, "hash"@) {
                        None => Err(missing_hash_text(atoi_spec(node_attr(n, "loopid"@), default_loop_id))),
                        Some(h) => Ok(
                            (
                                sc.0.push((h, atoi_spec(node_attr(n, "loopid"@), default_loop_id), node_attr(n, "volume"@))),
                                sc.1,
                            ),
                        ),
                    }
                } else if n.3 == "snapshot"@ {
                    Ok(
                        (
                            sc.0,
                            sc.1.push(
                                (
                                    atoi_spec(node_attr(n, "snapid"@), 0),
                                    match node_attr(n, "name"@) {
                                        Some(t) => t,
                                        None => Seq::empty(),
                                    },
                                    snapshot_loops_upto(doc, n.0, doc.len()),
                                ),
                            ),
                        ),
                    )
                } else {
                    Ok(sc)
                }
            },
        }
    }
}

/// The scene that the nodes `doc` (root element first) describe.
pub open spec fn scene_spec(doc: Seq<XmlNodeValue>, default_loop_id: i32) -> Result<SceneValue, Seq<char>> {
    if doc[0].3 != "scene"@ {
        Err("scene data has bad format"@)
    } else {
        scene_upto(doc, doc[0].0, default_loop_id, doc.len())
    }
}

fn attribute_text(attributes: &Vec<XmlAttribute>, name: &str) -> (r: Option<String>)
    ensures
        opt_text(r) == attribute_spec(attributes@.map_values(|a: XmlAttribute| a@), name@),
{
    match attribute_in(attributes, name) {
        Some(v) => Some(string_from(v)),
        None => None,
    }
}

fn snapshot_loops(nodes: &Vec<XmlNode>, sid: usize) -> (r: Vec<SceneSnapshotLoop>)
    ensures
        r@.map_values(|l: SceneSnapshotLoop| snapshot_loop_value(l)) == snapshot_loops_upto(
            nodes_view(nodes@),
            sid,
            nodes@.len(),
        ),
{
    let ghost doc = nodes_view(nodes@);
    let mut out: Vec<SceneSnapshotLoop> = Vec::new();
    let mut k: usize = 0;
    while k < nodes.len()
        invariant
            k <= nodes@.len(),
            doc == nodes_view(nodes@),
            out@.map_values(|l: SceneSnapshotLoop| snapshot_loop_value(l)) == snapshot_loops_upto(doc, sid, k as nat),
        decreases nodes@.len() - k,
    {
        let n = &nodes[k];
        assert(doc[k as int] == n@);
        let ghost before = out@;
        if n.is_element && n.parent == Some(sid) && str_eq(n.name.as_str(), "loopsnapshot") {
            let l = SceneSnapshotLoop {
                loop_id: atoi(attribute_in(&n.attributes, "loopid"), 0),
                status: atoi(attribute_in(&n.attributes, "status"), 0),
                loop_volume: attribute_text(&n.attributes, "loopvol"),
                trigger_volume: attribute_text(&n.attributes, "triggervol"),
            };
            out.push(l);
            assert(out@.map_values(|l: SceneSnapshotLoop| snapshot_loop_value(l)) =~= before.map_values(
                |l: SceneSnapshotLoop| snapshot_loop_value(l),
            ).push(snapshot_loop_value(l)));
        } else {
            assert(snapshot_loops_upto(doc, sid, (k + 1) as nat) =~= snapshot_loops_upto(doc, sid, k as nat));
        }
        k = k + 1;
    }
    out
}

fn missing_hash(id: i32) -> (s: String)
    ensures
        s@ == missing_hash_text(id),
{
    let mut s = string_from("scene definition for loop (id ");
    push_decimal_i64(&mut s, id as i64);
    push_str(&mut s, ") has missing hash");
    s
}

/// Reads the nodes of a scene document (root element first): the root
/// element must be `scene`; each `loop` element below it gives a loop (its
/// id defaulting to `default_loop_id`; one without a hash is an error),
/// each `snapshot` element a snapshot with its `loopsnapshot` elements.
pub fn scene_from_nodes(nodes: &Vec<XmlNode>, default_loop_id: i32) -> (r: Result<SceneLoad, String>)
    requires
        nodes@.len() >= 1,
    ensures
        scene_view(r) == scene_spec(nodes_view(nodes@), default_loop_id),
{
    let ghost doc = nodes_view(nodes@);
    assert(doc[0] == nodes@[0]@);
    if !str_eq(nodes[0].name.as_str(), "scene") {
        return Err(string_from("scene data has bad format"));
    }
    let rid = nodes[0].id;
    let mut loops: Vec<SceneLoop> = Vec::new();
    let mut snapshots: Vec<SceneSnapshot> = Vec::new();
    let mut k: usize = 0;
    assert(loops@.map_values(|l: SceneLoop| scene_loop_value(l)) =~= Seq::<SceneLoopValue>::empty());
    assert(snapshots@.map_values(|x: SceneSnapshot| snapshot_value(x)) =~= Seq::<SnapshotValue>::empty());
    while k < nodes.len()
        invariant
            k <= nodes@.len(),
            doc == nodes_view(nodes@),
            rid == doc[0].0,
            doc.len() == nodes@.len(),
            doc[0].3 == "scene"@,
            scene_upto(doc, rid, default_loop_id, k as nat) == Ok::<SceneValue, Seq<char>>(
                (
                    loops@.map_values(|l: SceneLoop| scene_loop_value(l)),
                    snapshots@.map_values(|x: SceneSnapshot| snapshot_value(x)),
                ),
            ),
        decreases nodes@.len() - k,
    {
        let n = &nodes[k];
        assert(doc[k as int] == n@);
        let ghost ls = loops@;
        let ghost ss = snapshots@;
        if n.is_element && n.parent == Some(rid) {
            if str_eq(n.name.as_str(), "loop") {
                let id = atoi(attribute_in(&n.attributes, "loopid"), default_loop_id);
                match attribute_in(&n.attributes, "hash") {
                    None => {
                        let e = missing_hash(id);
                        assert(scene_upto(doc, rid, default_loop_id, (k + 1) as nat) == Err::<SceneValue, Seq<char>>(e@));
                        assert(nodes@.len() >= k + 1);
                        proof {
                            lemma_scene_error_stays(doc, rid, default_loop_id, (k + 1) as nat, nodes@.len());
                        }
                        return Err(e);
                    },
                    Some(h) => {
                        let l = SceneLoop { hash: string_from(h), loop_id: id, volume: attribute_text(&n.attributes, "volume") };
                        loops.push(l);
                        assert(loops@.map_values(|l: SceneLoop| scene_loop_value(l)) =~= ls.map_values(
                            |l: SceneLoop| scene_loop_value(l),
                        ).push(scene_loop_value(l)));
                    },
                }
            } else if str_eq(n.name.as_str(), "snapshot") {
                let name = match attribute_in(&n.attributes, "name") {
                    Some(t) => string_from(t),
                    None => String::new(),
                };
                let x = SceneSnapshot {
                    id: atoi(attribute_in(&n.attributes, "snapid"), 0),
                    name,
                    loops: snapshot_loops(&nodes, n.id),
                };
                snapshots.push(x);
                assert(snapshots@.map_values(|x: SceneSnapshot| snapshot_value(x)) =~= ss.map_values(
                    |x: SceneSnapshot| snapshot_value(x),
                ).push(snapshot_value(x)));
            }
        }
        k = k + 1;
    }
    Ok(SceneLoad { loops, snapshots })
}

/// Once reading fails, it stays failed.
proof fn lemma_scene_error_stays(doc: Seq<XmlNodeValue>, rid: usize, default_loop_id: i32, k: nat, m: nat)
    requires
        k <= m,
        scene_upto(doc, rid, default_loop_id, k) is Err,
    ensures
        scene_upto(doc, rid, default_loop_id, m) == scene_upto(doc, rid, default_loop_id, k),
    decreases m - k,
{
    if k < m {
        lemma_scene_error_stays(doc, rid, default_loop_id, k, (m - 1) as nat);
    }
}

/// Reads a scene document (see `scene_from_nodes`); text that does not
/// parse gives the parser's error.
pub fn parse_scene_xml(xml: &str, default_loop_id: i32) -> (r: Result<SceneLoad, String>)
    ensures
        scene_view(r) == match xml_document(xml@) {
            Ok(d) => scene_spec(d, default_loop_id),
            Err(e) => Err(e),
        },
{
    let nodes = match parse_xml_document(xml) {
        Ok(ns) => ns,
        Err(e) => return Err(e),
    };
    scene_from_nodes(&nodes, default_loop_id)
}

/// Reads a scene whose loops default to id 0.
pub fn parse_scene(xml: &str) -> (r: Result<SceneLoad, String>)
    ensures
        scene_view(r) == match xml_document(xml@) {
            Ok(d) => scene_spec(d, 0),
            Err(e) => Err(e),
        },
{
    parse_scene_xml(xml, 0)
}

/// What a `loopsnapshot` element says: loop, status, loop volume and
/// trigger volume.
pub open spec fn loopsnapshot_reading(n: XmlNodeValue) -> SnapshotLoopValue {
    (
        atoi_spec(node_attr(n, "loopid"@), 0),
        atoi_spec(node_attr(n, "status"@), 0),
        node_attr(n, "loopvol"@),
        node_attr(n, "triggervol"@),
    )
}

/// Node `m` is a `loopsnapshot` element whose parent is the node `sid`.
pub open spec fn is_loopsnapshot_of(doc: Seq<XmlNodeValue>, m: int, sid: usize) -> bool {
    0 <= m < doc.len() && doc[m].2 && doc[m].1 == Some(sid) && doc[m].3 == "loopsnapshot"@
}

/// Each loop read for the node `sid` comes from one of its `loopsnapshot`
/// children.
proof fn lemma_snapshot_loops_from_children(doc: Seq<XmlNodeValue>, sid: usize, k: nat, i: int)
    requires
        k <= doc.len(),
        0 <= i < snapshot_loops_upto(doc, sid, k).len(),
    ensures
        exists|m: int|
            m < k && #[trigger] is_loopsnapshot_of(doc, m, sid) && snapshot_loops_upto(doc, sid, k)[i]
                == loopsnapshot_reading(doc[m]),
    decreases k,
{
    let prev = snapshot_loops_upto(doc, sid, (k - 1) as nat);
    let cur = snapshot_loops_upto(doc, sid, k);
    let n = doc[k - 1];
    if child_element(n, sid) && n.3 == "loopsnapshot"@ {
        assert(cur == prev.push(loopsnapshot_reading(n)));
        if i < prev.len() {
            lemma_snapshot_loops_from_children(doc, sid, (k - 1) as nat, i);
            assert(cur[i] == prev[i]);
        } else {
            assert(is_loopsnapshot_of(doc, k - 1, sid));
            assert(cur[i] == loopsnapshot_reading(doc[k - 1]));
        }
    } else {
        assert(cur =~= prev);
        lemma_snapshot_loops_from_children(doc, sid, (k - 1) as nat, i);
    }
}

/// Each `loopsnapshot` child of the node `sid` gives one of the loops read
/// for it.
proof fn lemma_children_give_snapshot_loops(doc: Seq<XmlNodeValue>, sid: usize, k: nat, m: int)
    requires
        k <= doc.len(),
        m < k,
        is_loopsnapshot_of(doc, m, sid),
    ensures
        exists|i: int|
            0 <= i < snapshot_loops_upto(doc, sid, k).len() && snapshot_loops_upto(doc, sid, k)[i]
                == loopsnapshot_reading(doc[m]),
    decreases k,
{
    let prev = snapshot_loops_upto(doc, sid, (k - 1) as nat);
    let cur = snapshot_loops_upto(doc, sid, k);
    let n = doc[k - 1];
    if child_element(n, sid) && n.3 == "loopsnapshot"@ {
        assert(cur == prev.push(loopsnapshot_reading(n)));
        if m < k - 1 {
            lemma_children_give_snapshot_loops(doc, sid, (k - 1) as nat, m);
            let i = choose|i: int| 0 <= i < prev.len() && prev[i] == loopsnapshot_reading(doc[m]);
            assert(cur[i] == prev[i]);
        } else {
            assert(cur[prev.len() as int] == loopsnapshot_reading(doc[m]));
        }
    } else {
        assert(cur =~= prev);
        assert(m != k - 1);
        lemma_children_give_snapshot_loops(doc, sid, (k - 1) as nat, m);
    }
}

/// Node `p` is a `snapshot` element below the root `rid` that gives the
/// snapshot `snap`: its id, name and loops.
pub open spec fn snapshot_from_element(doc: Seq<XmlNodeValue>, rid: usize, p: int, snap: SnapshotValue) -> bool {
    &&& 0 <= p < doc.len()
    &&& doc[p].2 && doc[p].1 == Some(rid) && doc[p].3 == "snapshot"@
    &&& snap.0 == atoi_spec(node_attr(doc[p], "snapid"@), 0)
    &&& snap.2 == snapshot_loops_upto(doc, doc[p].0, doc.len())
}

proof fn lemma_scene_snapshot_from_element(doc: Seq<XmlNodeValue>, rid: usize, d: i32, k: nat, j: int)
    requires
        k <= doc.len(),
        scene_upto(doc, rid, d, k) is Ok,
        0 <= j < scene_upto(doc, rid, d, k)->Ok_0.1.len(),
    ensures
        exists|p: int| p < k && #[trigger] snapshot_from_element(doc, rid, p, scene_upto(doc, rid, d, k)->Ok_0.1[j]),
    decreases k,
{
    assert(scene_upto(doc, rid, d, (k - 1) as nat) is Ok);
    let prev = scene_upto(doc, rid, d, (k - 1) as nat)->Ok_0;
    let cur = scene_upto(doc, rid, d, k)->Ok_0;
    let n = doc[k - 1];
    if child_element(n, rid) && n.3 != "loop"@ && n.3 == "snapshot"@ {
        assert(cur.1 == prev.1.push(
            (
                atoi_spec(node_attr(n, "snapid"@), 0),
                match node_attr(n, "name"@) {
                    Some(t) => t,
                    None => Seq::empty(),
                },
                snapshot_loops_upto(doc, n.0, doc.len()),
            ),
        ));
        if j < prev.1.len() {
            lemma_scene_snapshot_from_element(doc, rid, d, (k - 1) as nat, j);
            assert(cur.1[j] == prev.1[j]);
            let p = choose|p: int| p < k - 1 && #[trigger] snapshot_from_element(doc, rid, p, prev.1[j]);
            assert(snapshot_from_element(doc, rid, p, cur.1[j]));
        } else {
            assert(snapshot_from_element(doc, rid, k - 1, cur.1[j]));
        }
    } else {
        assert(cur.1 == prev.1);
        lemma_scene_snapshot_from_element(doc, rid, d, (k - 1) as nat, j);
    }
}

/// Loop `i` of `loops` is what one of the `loopsnapshot` children of the
/// node `sid` says.
pub open spec fn loop_from_child(doc: Seq<XmlNodeValue>, sid: usize, loops: Seq<SnapshotLoopValue>, i: int) -> bool {
    exists|m: int| #[trigger] is_loopsnapshot_of(doc, m, sid) && loops[i] == loopsnapshot_reading(doc[m])
}

/// What the node `m` says is among `loops`.
pub open spec fn child_gives_loop(doc: Seq<XmlNodeValue>, loops: Seq<SnapshotLoopValue>, m: int) -> bool {
    exists|i: int| 0 <= i < loops.len() && #[trigger] loops[i] == loopsnapshot_reading(doc[m])
}

/// Node `p` is a `snapshot` element directly below the root that gives
/// the snapshot `snap`: its id is the element's `snapid`, each of its
/// loops is what one of the `loopsnapshot` elements directly inside the
/// element says, and each of those gives one of its loops.
pub open spec fn snapshot_element_gives(doc: Seq<XmlNodeValue>, p: int, snap: SnapshotValue) -> bool {
    &&& 0 <= p < doc.len()
    &&& doc[p].2 && doc[p].1 == Some(doc[0].0) && doc[p].3 == "snapshot"@
    &&& snap.0 == atoi_spec(node_attr(doc[p], "snapid"@), 0)
    &&& forall|i: int| 0 <= i < snap.2.len() ==> #[trigger] loop_from_child(doc, doc[p].0, snap.2, i)
    &&& forall|m: int| #[trigger] is_loopsnapshot_of(doc, m, doc[p].0) ==> child_gives_loop(doc, snap.2, m)
}

/// Some `snapshot` element directly below the root gives `snap` (see
/// `snapshot_element_gives`).
pub open spec fn snapshot_has_element(doc: Seq<XmlNodeValue>, snap: SnapshotValue) -> bool {
    exists|p: int| #[trigger] snapshot_element_gives(doc, p, snap)
}

/// Law: each snapshot that a scene document gives comes from a
/// `snapshot` element below the root, and its loops are exactly those
/// that the `loopsnapshot` elements directly inside that element give.
pub proof fn law_snapshot_loops_come_from_their_snapshot(doc: Seq<XmlNodeValue>, default_loop_id: i32)
    requires
        doc.len() >= 1,
        scene_spec(doc, default_loop_id) is Ok,
    ensures
        forall|j: int|
            #![trigger scene_spec(doc, default_loop_id)->Ok_0.1[j]]
            0 <= j < scene_spec(doc, default_loop_id)->Ok_0.1.len() ==> snapshot_has_element(
                doc,
                scene_spec(doc, default_loop_id)->Ok_0.1[j],
            ),
{
    let rid = doc[0].0;
    assert(scene_spec(doc, default_loop_id) == scene_upto(doc, rid, default_loop_id, doc.len()));
    let sc = scene_spec(doc, default_loop_id)->Ok_0;
    assert forall|j: int|
        #![trigger scene_spec(doc, default_loop_id)->Ok_0.1[j]]
        0 <= j < scene_spec(doc, default_loop_id)->Ok_0.1.len() implies snapshot_has_element(
            doc,
            scene_spec(doc, default_loop_id)->Ok_0.1[j],
        ) by {
        lemma_scene_snapshot_from_element(doc, rid, default_loop_id, doc.len(), j);
        let p = choose|p: int| p < doc.len() && #[trigger] snapshot_from_element(doc, rid, p, sc.1[j]);
        let snap = sc.1[j];
        assert forall|i: int| 0 <= i < snap.2.len() implies #[trigger] loop_from_child(doc, doc[p].0, snap.2, i) by {
            lemma_snapshot_loops_from_children(doc, doc[p].0, doc.len(), i);
        }
        assert forall|m: int| #[trigger] is_loopsnapshot_of(doc, m, doc[p].0) implies child_gives_loop(
            doc,
            snap.2,
            m,
        ) by {
            lemma_children_give_snapshot_loops(doc, doc[p].0, doc.len(), m);
        }
        assert(snap.2 == snapshot_loops_upto(doc, doc[p].0, doc.len()));
        assert(0 <= p < doc.len());
        assert(doc[p].2 && doc[p].1 == Some(doc[0].0) && doc[p].3 == "snapshot"@);
        assert(snap.0 == atoi_spec(node_attr(doc[p], "snapid"@), 0));
        assert(snapshot_element_gives(doc, p, sc.1[j]));
    }
}

/// Node `m` is a `loop` element directly below the root that gives the
/// scene loop `l`: its hash, its `loopid` (or the default) and its volume
/// text.
pub open spec fn loop_element_gives(doc: Seq<XmlNodeValue>, d: i32, m: int, l: SceneLoopValue) -> bool {
    &&& 0 <= m < doc.len()
    &&& doc[m].2 && doc[m].1 == Some(doc[0].0) && doc[m].3 == "loop"@
    &&& node_attr(doc[m], "hash"@) == Some(l.0)
    &&& l.1 == atoi_spec(node_attr(doc[m], "loopid"@), d)
    &&& l.2 == node_attr(doc[m], "volume"@)
}

/// Some `loop` element directly below the root gives `l`.
pub open spec fn scene_loop_has_element(doc: Seq<XmlNodeValue>, d: i32, l: SceneLoopValue) -> bool {
    exists|m: int| #[trigger] loop_element_gives(doc, d, m, l)
}

proof fn lemma_scene_loop_from_element(doc: Seq<XmlNodeValue>, d: i32, k: nat, i: int)
    requires
        doc.len() >= 1,
        k <= doc.len(),
        scene_upto(doc, doc[0].0, d, k) is Ok,
        0 <= i < scene_upto(doc, doc[0].0, d, k)->Ok_0.0.len(),
    ensures
        scene_loop_has_element(doc, d, scene_upto(doc, doc[0].0, d, k)->Ok_0.0[i]),
    decreases k,
{
    let rid = doc[0].0;
    assert(scene_upto(doc, rid, d, (k - 1) as nat) is Ok);
    let prev = scene_upto(doc, rid, d, (k - 1) as nat)->Ok_0;
    let cur = scene_upto(doc, rid, d, k)->Ok_0;
    let n = doc[k - 1];
    if child_element(n, rid) && n.3 == "loop"@ {
        let h = node_attr(n, "hash"@)->Some_0;
        assert(cur.0 == prev.0.push((h, atoi_spec(node_attr(n, "loopid"@), d), node_attr(n, "volume"@))));
        if i < prev.0.len() {
            lemma_scene_loop_from_element(doc, d, (k - 1) as nat, i);
            assert(cur.0[i] == prev.0[i]);
        } else {
            assert(loop_element_gives(doc, d, k - 1, cur.0[i]));
        }
    } else {
        assert(cur.0 == prev.0);
        lemma_scene_loop_from_element(doc, d, (k - 1) as nat, i);
    }
}

/// Law: each loop that a scene document gives comes from a `loop` element
/// directly below the root, with that element's hash, id (or the default)
/// and volume.
pub proof fn law_scene_loops_come_from_loop_elements(doc: Seq<XmlNodeValue>, default_loop_id: i32)
    requires
        doc.len() >= 1,
        scene_spec(doc, default_loop_id) is Ok,
    ensures
        forall|i: int|
            #![trigger scene_spec(doc, default_loop_id)->Ok_0.0[i]]
            0 <= i < scene_spec(doc, default_loop_id)->Ok_0.0.len() ==> scene_loop_has_element(
                doc,
                default_loop_id,
                scene_spec(doc, default_loop_id)->Ok_0.0[i],
            ),
{
    assert(scene_spec(doc, default_loop_id) == scene_upto(doc, doc[0].0, default_loop_id, doc.len()));
    assert forall|i: int|
        #![trigger scene_spec(doc, default_loop_id)->Ok_0.0[i]]
        0 <= i < scene_spec(doc, default_loop_id)->Ok_0.0.len() implies scene_loop_has_element(
            doc,
            default_loop_id,
            scene_spec(doc, default_loop_id)->Ok_0.0[i],
        ) by {
        lemma_scene_loop_from_element(doc, default_loop_id, doc.len(), i);
    }
}

} // verus!
