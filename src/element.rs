//! One element of the document as the document walker hands it over.

use vstd::prelude::*;

use crate::text::same_text;

verus! {

/// The vocabularies that an element's name can be resolved to.
#[derive(Clone, Copy, Debug, PartialEq, Eq, Structural)]
pub enum Namespace {
    Atom,
    Content,
    DublinCore,
    Itunes,
    MediaRss,
    Rss,
}

/// A name/value pair on an element.
#[derive(Clone, Debug, PartialEq, Eq)]
pub struct Attribute {
    pub name: String,
    pub value: String,
}

/// A failure of the underlying document read.
#[derive(Clone, Debug, PartialEq, Eq)]
pub struct ReadError {
    pub message: String,
}

/// An element with its namespace resolved, its attributes, and its child content.
#[derive(Debug)]
pub struct Element {
    /// The namespace of the element's name, if it resolved to a known one.
    pub namespace: Option<Namespace>,
    /// The local name.
    pub tag: String,
    /// The attributes, in document order.
    pub attributes: Vec<Attribute>,
    /// The immediate child text, verbatim, if there is any.
    pub child_text: Option<String>,
    /// The child content after the document's text normalisation, or the
    /// read error met while reading it.
    pub content: Result<Option<String>, ReadError>,
}

/// The value of the first attribute named `name`.
pub open spec fn attr_lookup(attrs: Seq<Attribute>, name: Seq<char>) -> Option<Seq<char>>
    decreases attrs.len(),
{
    if attrs.len() == 0 {
        None
    } else if attrs[0].name@ == name {
        Some(attrs[0].value@)
    } else {
        attr_lookup(attrs.drop_first(), name)
    }
}

impl Element {
    /// An element without attributes or content.
    pub fn new(namespace: Option<Namespace>, tag: &str) -> (r: Element)
        ensures
            r.namespace == namespace,
            r.tag@ == tag@,
            r.attributes@.len() == 0,
            r.child_text.is_none(),
            r.content == Ok::<Option<String>, ReadError>(None),
    {
        Element {
            namespace,
            tag: tag.to_owned(),
            attributes: Vec::new(),
            child_text: None,
            content: Ok(None),
        }
    }

    /// The element with one more attribute after those it has.
    pub fn with_attribute(self, name: &str, value: &str) -> (r: Element)
        ensures
            r.namespace == self.namespace,
            r.tag == self.tag,
            r.attributes@.len() == self.attributes@.len() + 1,
            r.attributes@.drop_last() == self.attributes@,
            r.attributes@.last().name@ == name@,
            r.attributes@.last().value@ == value@,
            r.child_text == self.child_text,
            r.content == self.content,
    {
        let mut r = self;
        r.attributes.push(Attribute { name: name.to_owned(), value: value.to_owned() });
        assert(r.attributes@.drop_last() =~= self.attributes@);
        r
    }

    /// The element with `text` as its child text, which normalises to itself.
    pub fn with_text(self, text: &str) -> (r: Element)
        ensures
            r.namespace == self.namespace,
            r.tag == self.tag,
            r.attributes == self.attributes,
            r.child_text matches Some(t) && t@ == text@,
            r.content matches Ok(Some(t)) && t@ == text@,
    {
        let mut r = self;
        r.child_text = Some(text.to_owned());
        r.content = Ok(Some(text.to_owned()));
        r
    }

    /// The element with the given outcome of text normalisation.
    pub fn with_content(self, content: Result<Option<String>, ReadError>) -> (r: Element)
        ensures
            r.namespace == self.namespace,
            r.tag == self.tag,
            r.attributes == self.attributes,
            r.child_text == self.child_text,
            r.content == content,
    {
        let mut r = self;
        r.content = content;
        r
    }

    /// The value of the first attribute named `name`, if there is one.
    pub fn attr_value(&self, name: &str) -> (r: Option<String>)
        ensures
            match r {
                Some(v) => attr_lookup(self.attributes@, name@) == Some(v@),
                None => attr_lookup(self.attributes@, name@) is None,
            },
    {
        let mut i: usize = 0;
        assert(self.attributes@.skip(0) =~= self.attributes@);
        while i < self.attributes.len()
            invariant
                i <= self.attributes@.len(),
                attr_lookup(self.attributes@, name@) == attr_lookup(
                    self.attributes@.skip(i as int),
                    name@,
                ),
            decreases self.attributes@.len() - i,
        {
            let a = &self.attributes[i];
            assert(self.attributes@.skip(i as int).drop_first() =~= self.attributes@.skip(i + 1));
            if same_text(a.name.as_str(), name) {
                return Some(a.value.clone());
            }
            i += 1;
        }
        None
    }
}

} // verus!
