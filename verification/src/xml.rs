//! A document tree of XML elements, as an XML parser produces it, and the
//! queries that the protocol description reader makes of it.

use vstd::prelude::*;
use sxd_document::dom::{ChildOfElement, ChildOfRoot, Element};
use sxd_document::QName;
use crate::text::str_equal;

verus! {

/// A qualified name: an optional namespace and a local part.
#[derive(Clone, Debug, PartialEq, Eq)]
pub struct XmlName {
    pub namespace_uri: Option<String>,
    pub local_part: String,
}

/// An attribute of an element.
#[derive(Clone, Debug, PartialEq, Eq)]
pub struct XmlAttribute {
    pub name: XmlName,
    pub value: String,
}

/// An element: its name, its attributes in document order, and its children.
#[derive(Debug, PartialEq, Eq)]
pub struct XmlElement {
    pub name: XmlName,
    pub attributes: Vec<XmlAttribute>,
    pub children: Vec<XmlChild>,
}

/// A child of an element or of the document root.
#[derive(Debug, PartialEq, Eq)]
pub enum XmlChild {
    Element(XmlElement),
    Text(String),
    Comment,
    ProcessingInstruction,
}

#[verifier::external_type_specification]
#[verifier::external_body]
pub struct ExElement<'d>(Element<'d>);

#[verifier::external_type_specification]
#[verifier::external_body]
pub struct ExQName<'s>(QName<'s>);

/// The children of the document root that `sxd_document::parser::parse`
/// builds from `text`, in document order, or `None` where it refuses the text.
pub uninterp spec fn parsed_document(text: Seq<char>) -> Option<Seq<XmlChild>>;

/// Copies the namespace URI and the local part of an `sxd_document` name.
#[verifier::external_body]
fn qname_to_xml(q: QName<'_>) -> XmlName {
    XmlName { namespace_uri: q.namespace_uri().map(String::from), local_part: q.local_part().to_string() }
}

/// Copies an element of an `sxd_document` tree, with its name, its
/// attributes and its children in document order, into the library's tree.
#[verifier::external_body]
fn element_to_xml(e: Element<'_>) -> XmlElement {
    XmlElement {
        name: qname_to_xml(e.name()),
        attributes: e.attributes().iter().map(|a| XmlAttribute { name: qname_to_xml(a.name()), value: a.value().to_string() })
            .collect(),
        children: e.children().into_iter().map(|c| match c {
            ChildOfElement::Element(x) => XmlChild::Element(element_to_xml(x)),
            ChildOfElement::Text(t) => XmlChild::Text(t.text().to_string()),
            ChildOfElement::Comment(_) => XmlChild::Comment,
            ChildOfElement::ProcessingInstruction(_) => XmlChild::ProcessingInstruction,
        }).collect(),
    }
}

/// Parses `text` with `sxd_document::parser::parse` and copies the children
/// of the document root into the library's tree. The contract names the
/// result `parsed_document(text@)`: the parser's result depends on the text
/// alone. What the parser accepts and what tree it builds is not stated here.
#[verifier::external_body]
pub(crate) fn parse_document(text: &str) -> (res: Option<Vec<XmlChild>>)
    ensures
        res is Some <==> parsed_document(text@) is Some,
        res matches Some(v) ==> v@ == parsed_document(text@).unwrap(),
{
    let package = sxd_document::parser::parse(text).ok()?;
    let roots = package.as_document().root().children();
    Some(roots.into_iter().map(|c| match c {
        ChildOfRoot::Element(e) => XmlChild::Element(element_to_xml(e)),
        ChildOfRoot::Comment(_) => XmlChild::Comment,
        ChildOfRoot::ProcessingInstruction(_) => XmlChild::ProcessingInstruction,
    }).collect())
}

/// Whether `name` is the name `local` without a namespace.
pub open spec fn has_name(name: XmlName, local: Seq<char>) -> bool {
    name.namespace_uri is None && name.local_part@ == local
}

/// Whether `e` is named `local` without a namespace.
pub open spec fn named(e: XmlElement, local: Seq<char>) -> bool {
    has_name(e.name, local)
}

/// The value of the first attribute named `key` without a namespace.
pub open spec fn find_attribute(attrs: Seq<XmlAttribute>, key: Seq<char>) -> Option<Seq<char>>
    decreases attrs.len(),
{
    if attrs.len() == 0 {
        None
    } else if has_name(attrs[0].name, key) {
        Some(attrs[0].value@)
    } else {
        find_attribute(attrs.drop_first(), key)
    }
}

/// The value of the attribute `key` of `e`.
pub open spec fn attr(e: XmlElement, key: Seq<char>) -> Option<Seq<char>> {
    find_attribute(e.attributes@, key)
}

/// The child elements among `cs`, in document order.
pub open spec fn child_elements(cs: Seq<XmlChild>) -> Seq<XmlElement>
    decreases cs.len(),
{
    if cs.len() == 0 {
        Seq::empty()
    } else {
        let init = child_elements(cs.drop_last());
        match cs.last() {
            XmlChild::Element(e) => init.push(e),
            _ => init,
        }
    }
}

/// The child elements of `e`, in document order.
pub open spec fn elements_of(e: XmlElement) -> Seq<XmlElement> {
    child_elements(e.children@)
}

/// All text inside `e`, its descendants' included, in document order.
pub open spec fn element_text(e: XmlElement) -> Seq<char>
    decreases e, 0nat,
{
    children_text(e.children@)
}

/// All text inside `cs` and their descendants, in document order.
pub open spec fn children_text(cs: Seq<XmlChild>) -> Seq<char>
    decreases cs, 1nat,
{
    if cs.len() == 0 {
        Seq::empty()
    } else {
        let last = cs.last();
        proof {
            assert(decreases_to!(cs => cs[cs.len() - 1]));
        }
        children_text(cs.drop_last()) + match last {
            XmlChild::Element(e) => element_text(e),
            XmlChild::Text(t) => t@,
            _ => Seq::empty(),
        }
    }
}

/// Taking one more child into account adds at most one child element.
pub(crate) proof fn lemma_child_elements_step(cs: Seq<XmlChild>, i: int)
    requires
        0 <= i < cs.len(),
    ensures
        child_elements(cs.subrange(0, i + 1)) == match cs[i] {
            XmlChild::Element(e) => child_elements(cs.subrange(0, i)).push(e),
            _ => child_elements(cs.subrange(0, i)),
        },
{
    assert(cs.subrange(0, i + 1).drop_last() =~= cs.subrange(0, i));
}

impl XmlElement {
    /// Whether the element is named `local` without a namespace.
    pub fn is_named(&self, local: &str) -> (res: bool)
        ensures
            res == named(*self, local@),
    {
        self.name.namespace_uri.is_none() && str_equal(self.name.local_part.as_str(), local)
    }

    /// The value of the first attribute named `key` without a namespace.
    pub fn attribute_value(&self, key: &str) -> (res: Option<&str>)
        ensures
            match res {
                Some(v) => attr(*self, key@) == Some(v@),
                None => attr(*self, key@) is None,
            },
    {
        let mut i: usize = 0;
        assert(self.attributes@.subrange(0, self.attributes@.len() as int) =~= self.attributes@);
        while i < self.attributes.len()
            invariant
                0 <= i <= self.attributes@.len(),
                find_attribute(self.attributes@.subrange(i as int, self.attributes@.len() as int), key@)
                    == attr(*self, key@),
            decreases self.attributes@.len() - i,
        {
            let ghost rest = self.attributes@.subrange(i as int, self.attributes@.len() as int);
            let a = &self.attributes[i];
            if a.name.namespace_uri.is_none() && str_equal(a.name.local_part.as_str(), key) {
                return Some(a.value.as_str());
            }
            assert(rest.drop_first() =~= self.attributes@.subrange(i + 1, self.attributes@.len() as int));
            i = i + 1;
        }
        None
    }
}

/// Appends all text inside `elem` to `string`.
pub fn collect_text_recurse(elem: &XmlElement, string: &mut String)
    ensures
        final(string)@ == old(string)@ + element_text(*elem),
    decreases elem, 0nat,
{
    let ghost start = string@;
    let mut i: usize = 0;
    while i < elem.children.len()
        invariant
            0 <= i <= elem.children@.len(),
            string@ == start + children_text(elem.children@.subrange(0, i as int)),
        decreases elem.children@.len() - i,
    {
        let ghost cs = elem.children@.subrange(0, i + 1);
        assert(cs.drop_last() =~= elem.children@.subrange(0, i as int));
        assert(cs.last() == elem.children@[i as int]);
        match &elem.children[i] {
            XmlChild::Element(child_elem) => {
                proof {
                    assert(decreases_to!(elem => elem.children));
                    assert(decreases_to!(elem.children => elem.children@));
                    assert(decreases_to!(elem.children@ => elem.children@[i as int]));
                }
                collect_text_recurse(child_elem, string);
            },
            XmlChild::Text(text) => {
                string.append(text.as_str());
            },
            XmlChild::Comment => {},
            XmlChild::ProcessingInstruction => {},
        }
        assert(string@ =~= start + children_text(cs));
        i = i + 1;
    }
    assert(elem.children@.subrange(0, i as int) =~= elem.children@);
}

/// All text inside `elem`, its descendants' included.
pub fn collect_text(elem: &XmlElement) -> (res: String)
    ensures
        res@ == element_text(*elem),
{
    let mut ret = String::new();
    collect_text_recurse(elem, &mut ret);
    assert(ret@ =~= element_text(*elem));
    ret
}


/// The text of a run of children is the text of its first part followed by
/// the text of the rest: nothing is dropped, added or reordered.
pub proof fn lemma_children_text_concat(a: Seq<XmlChild>, b: Seq<XmlChild>)
    ensures
        children_text(a + b) == children_text(a) + children_text(b),
    decreases b.len(),
{
    if b.len() == 0 {
        assert(a + b =~= a);
        assert(children_text(a) + children_text(b) =~= children_text(a));
    } else {
        lemma_children_text_concat(a, b.drop_last());
        assert((a + b).drop_last() =~= a + b.drop_last());
        assert((a + b).last() == b.last());
        let tail = match b.last() {
            XmlChild::Element(e) => element_text(e),
            XmlChild::Text(t) => t@,
            _ => Seq::<char>::empty(),
        };
        assert(children_text(a) + children_text(b.drop_last()) + tail =~= children_text(a) + (children_text(
            b.drop_last(),
        ) + tail));
    }
}

/// A single child contributes its whole text: a text node its characters
/// exactly, an element all the text inside it, and a comment or a processing
/// instruction nothing. An element's text is that of its children, so an
/// element whose only child is the text `t` holds exactly `t`.
pub proof fn lemma_children_text_single(c: XmlChild, e: XmlElement)
    ensures
        children_text(seq![c]) == match c {
            XmlChild::Element(inner) => element_text(inner),
            XmlChild::Text(t) => t@,
            _ => Seq::<char>::empty(),
        },
        element_text(e) == children_text(e.children@),
        (e.children@ == seq![c] && c is Text) ==> element_text(e) == c->Text_0@,
{
    assert(seq![c].drop_last() =~= Seq::<XmlChild>::empty());
    assert(children_text(Seq::<XmlChild>::empty()) == Seq::<char>::empty());
    let t = children_text(seq![c]);
    assert(t =~= match c {
        XmlChild::Element(inner) => element_text(inner),
        XmlChild::Text(t) => t@,
        _ => Seq::<char>::empty(),
    });
}

} // verus!
