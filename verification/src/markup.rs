//! Markup events and the element names that the dump parser knows.

use vstd::prelude::*;
use vstd::string::StringSliceAdditionalSpecFns;

verus! {

/// The element names with a meaning for the parser; every other name is
/// `Other`.
#[derive(Debug, Clone, Copy, PartialEq, Eq, Structural)]
pub enum Tag {
    Page,
    Revision,
    Contributor,
    Title,
    Id,
    ParentId,
    Timestamp,
    Username,
    Comment,
    Format,
    Text,
    Other,
}

/// One token of the forward-only markup stream. Names and text are the raw
/// bytes of the source; text is still escaped.
#[derive(Debug)]
pub enum XmlEvent {
    Start(Vec<u8>),
    End(Vec<u8>),
    Text(Vec<u8>),
    /// Any token that opens or closes nothing and carries no text of an
    /// element: comments, declarations, empty elements.
    Other,
    Eof,
}

/// An event as the state machine reads it: names classified, text decoded.
pub enum EventView {
    Start(Tag),
    End(Tag),
    /// The decoded text, or `None` where the raw bytes cannot be decoded.
    Text(Option<Seq<char>>),
    Other,
    Eof,
}

/// The text that `quick_xml` yields for the escaped bytes `raw` of a text
/// event, or `None` where it reports an error.
pub uninterp spec fn decoded_text(raw: Seq<u8>) -> Option<Seq<char>>;

/// The tag that an element name stands for.
pub open spec fn tag_of(name: Seq<u8>) -> Tag {
    if name == "page".spec_bytes() {
        Tag::Page
    } else if name == "revision".spec_bytes() {
        Tag::Revision
    } else if name == "contributor".spec_bytes() {
        Tag::Contributor
    } else if name == "title".spec_bytes() {
        Tag::Title
    } else if name == "id".spec_bytes() {
        Tag::Id
    } else if name == "parentid".spec_bytes() {
        Tag::ParentId
    } else if name == "timestamp".spec_bytes() {
        Tag::Timestamp
    } else if name == "username".spec_bytes() {
        Tag::Username
    } else if name == "comment".spec_bytes() {
        Tag::Comment
    } else if name == "format".spec_bytes() {
        Tag::Format
    } else if name == "text".spec_bytes() {
        Tag::Text
    } else {
        Tag::Other
    }
}

impl View for XmlEvent {
    type V = EventView;

    open spec fn view(&self) -> EventView {
        match self {
            XmlEvent::Start(name) => EventView::Start(tag_of(name@)),
            XmlEvent::End(name) => EventView::End(tag_of(name@)),
            XmlEvent::Text(raw) => EventView::Text(decoded_text(raw@)),
            XmlEvent::Other => EventView::Other,
            XmlEvent::Eof => EventView::Eof,
        }
    }
}

/// The views of a sequence of events, in the same order.
pub open spec fn event_views(events: Seq<XmlEvent>) -> Seq<EventView> {
    events.map_values(|event: XmlEvent| event@)
}

/// Whether two byte strings hold the same bytes.
pub fn bytes_equal(left: &[u8], right: &[u8]) -> (same: bool)
    ensures
        same == (left@ == right@),
{
    if left.len() != right.len() {
        return false;
    }
    let mut i: usize = 0;
    while i < left.len()
        invariant
            left.len() == right.len(),
            i <= left.len(),
            forall|k: int| 0 <= k < i ==> left@[k] == right@[k],
        decreases left.len() - i,
    {
        if left[i] != right[i] {
            return false;
        }
        i += 1;
    }
    assert(left@ =~= right@);
    true
}

/// Classifies an element name.
pub fn classify_tag(name: &[u8]) -> (tag: Tag)
    ensures
        tag == tag_of(name@),
{
    if bytes_equal(name, "page".as_bytes()) {
        Tag::Page
    } else if bytes_equal(name, "revision".as_bytes()) {
        Tag::Revision
    } else if bytes_equal(name, "contributor".as_bytes()) {
        Tag::Contributor
    } else if bytes_equal(name, "title".as_bytes()) {
        Tag::Title
    } else if bytes_equal(name, "id".as_bytes()) {
        Tag::Id
    } else if bytes_equal(name, "parentid".as_bytes()) {
        Tag::ParentId
    } else if bytes_equal(name, "timestamp".as_bytes()) {
        Tag::Timestamp
    } else if bytes_equal(name, "username".as_bytes()) {
        Tag::Username
    } else if bytes_equal(name, "comment".as_bytes()) {
        Tag::Comment
    } else if bytes_equal(name, "format".as_bytes()) {
        Tag::Format
    } else if bytes_equal(name, "text".as_bytes()) {
        Tag::Text
    } else {
        Tag::Other
    }
}

/// Unescapes and decodes the bytes of a text event with
/// `quick_xml::events::BytesText::unescape_and_decode`. The result is the named
/// decoding of `raw`; an error of the crate becomes `None`.
#[verifier::external_body]
pub(crate) fn decode_text(raw: &[u8]) -> (text: Option<String>)
    ensures
        match text {
            Some(decoded) => decoded_text(raw@) == Some(decoded@),
            None => decoded_text(raw@).is_none(),
        },
{
    let reader = quick_xml::Reader::from_reader(raw);
    match quick_xml::events::BytesText::from_escaped(raw).unescape_and_decode(&reader) {
        Ok(decoded) => Some(decoded),
        Err(_) => None,
    }
}

} // verus!
