//! The elements of an XML document, read with `roxmltree`.

use vstd::prelude::*;
use crate::text::str_eq;

verus! {

/// An attribute of an element: namespace URI, local name and value.
#[derive(Debug, Clone, PartialEq, Eq)]
pub struct XmlAttribute {
    pub namespace: Option<String>,
    pub name: String,
    pub value: String,
}

/// An element's local name and its attributes in document order.
#[derive(Debug, Clone, PartialEq, Eq)]
pub struct XmlElement {
    pub name: String,
    pub attributes: Vec<XmlAttribute>,
}

/// Plain value of an attribute.
pub type XmlAttributeValue = (Option<Seq<char>>, Seq<char>, Seq<char>);

/// Plain value of an element.
pub type XmlElementValue = (Seq<char>, Seq<XmlAttributeValue>);

pub open spec fn opt_string_view(s: Option<String>) -> Option<Seq<char>> {
    match s {
        Some(t) => Some(t@),
        None => None,
    }
}

impl View for XmlAttribute {
    type V = XmlAttributeValue;

    open spec fn view(&self) -> XmlAttributeValue {
        (opt_string_view(self.namespace), self.name@, self.value@)
    }
}

impl View for XmlElement {
    type V = XmlElementValue;

    open spec fn view(&self) -> XmlElementValue {
        (self.name@, self.attributes@.map_values(|a: XmlAttribute| a@))
    }
}

/// A node of a parsed document: its id and its parent's id (in the
/// document's numbering), whether it is an element, its local name (empty
/// for other nodes) and its attributes in document order.
#[derive(Debug)]
pub struct XmlNode {
    pub id: usize,
    pub parent: Option<usize>,
    pub is_element: bool,
    pub name: String,
    pub attributes: Vec<XmlAttribute>,
}

/// Plain value of a node.
pub type XmlNodeValue = (usize, Option<usize>, bool, Seq<char>, Seq<XmlAttributeValue>);

impl View for XmlNode {
    type V = XmlNodeValue;

    open spec fn view(&self) -> XmlNodeValue {
        (self.id, self.parent, self.is_element, self.name@, self.attributes@.map_values(|a: XmlAttribute| a@))
    }
}

/// The plain values of a sequence of nodes.
pub open spec fn nodes_view(nodes: Seq<XmlNode>) -> Seq<XmlNodeValue> {
    nodes.map_values(|n: XmlNode| n@)
}

/// What `roxmltree::Document::parse` makes of `xml`: the root element and
/// its descendants in document order, or the error's text.
pub uninterp spec fn xml_document(xml: Seq<char>) -> Result<Seq<XmlNodeValue>, Seq<char>>;

/// Parses `xml` with `roxmltree::Document::parse` and lists
/// `root_element().descendants()` (the root element first, then the
/// nodes below it in document order): for each node its `id()` and its
/// `parent()`'s id (as `NodeId::get_usize`), `is_element()`, the local
/// name (`tag_name().name()`) and, in document order, each attribute's
/// `namespace()`, `name()` and `value()`.  On a parse error, the error's
/// `Display` text.  Parsing is deterministic, so the result is named as a
/// function of the text; a document that parses has a root element.
#[verifier::external_body]
pub(crate) fn parse_xml_document(xml: &str) -> (r: Result<Vec<XmlNode>, String>)
    ensures
        match r {
            Ok(ns) => xml_document(xml@) == Ok::<Seq<XmlNodeValue>, Seq<char>>(nodes_view(ns@)) && ns@.len() >= 1
                && ns@[0].is_element,
            Err(m) => xml_document(xml@) == Err::<Seq<XmlNodeValue>, Seq<char>>(m@),
        },
{
    let doc = roxmltree::Document::parse(xml).map_err(|e| e.to_string())?;
    let mut nodes = Vec::new();
    for n in doc.root_element().descendants() {
        let mut attributes = Vec::new();
        for a in n.attributes() {
            attributes.push(XmlAttribute { namespace: a.namespace().map(String::from), name: a.name().to_string(), value: a.value().to_string() });
        }
        let parent = n.parent().map(|p| p.id().get_usize());
        nodes.push(XmlNode { id: n.id().get_usize(), parent, is_element: n.is_element(), name: n.tag_name().name().to_string(), attributes });
    }
    Ok(nodes)
}

/// The root element of the document `xml`: its local name and attributes,
/// or the parse error's text.
pub open spec fn xml_root_element(xml: Seq<char>) -> Result<XmlElementValue, Seq<char>> {
    match xml_document(xml) {
        Ok(ns) => Ok((ns[0].3, ns[0].4)),
        Err(e) => Err(e),
    }
}

/// Parses `xml` and gives its root element.
pub fn parse_xml_root(xml: &str) -> (r: Result<XmlElement, String>)
    ensures
        match r {
            Ok(e) => xml_root_element(xml@) == Ok::<XmlElementValue, Seq<char>>(e@),
            Err(m) => xml_root_element(xml@) == Err::<XmlElementValue, Seq<char>>(m@),
        },
{
    match parse_xml_document(xml) {
        Ok(mut nodes) => {
            let ghost all = nodes@;
            let root = nodes.swap_remove(0);
            assert(root == all[0]);
            assert(nodes_view(all)[0] == root@);
            Ok(XmlElement { name: root.name, attributes: root.attributes })
        },
        Err(e) => Err(e),
    }
}

/// The value of the first attribute without a namespace called `name`
/// (`roxmltree::Node::attribute` with a plain name).
pub open spec fn attribute_spec(attrs: Seq<XmlAttributeValue>, name: Seq<char>) -> Option<Seq<char>>
    decreases attrs.len(),
{
    if attrs.len() == 0 {
        None
    } else if attrs[0].0 is None && attrs[0].1 == name {
        Some(attrs[0].2)
    } else {
        attribute_spec(attrs.drop_first(), name)
    }
}

/// The value of the first attribute without a namespace called `name`.
pub fn attribute_in<'a>(attributes: &'a Vec<XmlAttribute>, name: &str) -> (r: Option<&'a str>)
    ensures
        match r {
            Some(v) => attribute_spec(attributes@.map_values(|a: XmlAttribute| a@), name@) == Some(v@),
            None => attribute_spec(attributes@.map_values(|a: XmlAttribute| a@), name@) is None,
        },
{
    let ghost vs = attributes@.map_values(|a: XmlAttribute| a@);
    let n = attributes.len();
    let mut i: usize = 0;
    assert(vs.skip(0) =~= vs);
    while i < n
        invariant
            i <= n,
            n == attributes@.len(),
            vs == attributes@.map_values(|a: XmlAttribute| a@),
            attribute_spec(vs, name@) == attribute_spec(vs.skip(i as int), name@),
        decreases n - i,
    {
        let a = &attributes[i];
        assert(vs.skip(i as int)[0] == a@);
        assert(vs.skip(i as int).drop_first() =~= vs.skip(i + 1));
        if a.namespace.is_none() && str_eq(a.name.as_str(), name) {
            return Some(a.value.as_str());
        }
        i = i + 1;
    }
    None
}

impl XmlElement {
    /// The value of the first attribute without a namespace called `name`.
    pub fn attribute(&self, name: &str) -> (r: Option<&str>)
        ensures
            match r {
                Some(v) => attribute_spec(self@.1, name@) == Some(v@),
                None => attribute_spec(self@.1, name@) is None,
            },
    {
        attribute_in(&self.attributes, name)
    }
}

} // verus!
