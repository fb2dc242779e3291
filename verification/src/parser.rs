//! The dump parser: a state machine over markup events that reconstructs
//! items and their revisions and compares consecutive payloads.
//!
//! The machine keeps its position in the tree explicitly. The same element
//! name occurs at several depths with different meanings (an `id` belongs to
//! the item, to a revision or to a contributor), so a text is attributed by
//! the context in which its element was opened, never by the name alone.
//!
//! The fields of an item and of a revision may come in any order. What a
//! revision is worth is decided when it closes, what an item is worth when it
//! closes: a revision is compared unless its item is known to be rejected, so
//! a title may follow the revisions of its item, and a payload may precede
//! its format.
//!
//! Policies, where the behaviour is a choice:
//! - A payload that does not parse is not fatal: the revision is kept without a
//!   patch, the previous valid payload stays, and the step reports it.
//! - Whether a revision of another format is kept without a patch or dropped
//!   is set by [`FormatPolicy`].
//! - A structural element out of place, an undecodable text that a field
//!   needs, a malformed number and an end of stream inside an item are fatal.

use vstd::prelude::*;
use crate::document::{
    diff_documents, document_diff, empty_document, empty_object_text, parse_document,
    parsed_document, patch_length,
};
use crate::filter::MembershipFilter;
use crate::markup::{classify_tag, decode_text, EventView, Tag, XmlEvent};
use crate::model::{
    lemma_revision_views_push, revision_views, ItemView, RevisionView, WikidataItem,
    WikidataRevision,
};
use crate::text::{parse_u64, parsed_u64, str_equal};

verus! {

/// Where in the tree the parser stands.
#[derive(Debug, Clone, Copy, PartialEq, Eq, Structural)]
pub enum Context {
    OutsideItem,
    InItem,
    InRevision,
    InRevisionContributor,
}

/// What the membership filter said of the current item.
#[derive(Debug, Clone, Copy, PartialEq, Eq, Structural)]
pub enum Membership {
    /// The identifier of the item is not known yet.
    Undecided,
    Accepted,
    Rejected,
}

/// What becomes of a revision whose declared format is not the expected one.
#[derive(Debug, Clone, Copy, PartialEq, Eq, Structural)]
pub enum FormatPolicy {
    /// The revision stays in the item's history, without a patch.
    Retain,
    /// The revision is left out of the item's history.
    Drop,
}

/// Why a markup stream cannot be processed further.
#[derive(Debug, Clone, Copy, PartialEq, Eq, Structural)]
pub enum StreamError {
    /// An item, revision or contributor opens where none may.
    UnexpectedStart(Tag),
    /// An item, revision or contributor closes that is not the open one.
    UnexpectedEnd(Tag),
    /// The stream ends inside an item.
    Truncated,
    /// The text of a field cannot be unescaped or decoded.
    UndecodableText,
    /// The text of a numeric field is not an unsigned decimal number.
    InvalidNumber,
}

/// What one step of the machine yields, in spec terms.
#[verifier::ext_equal]
pub enum OutcomeView {
    /// Nothing to hand on.
    Continue,
    /// An item is complete.
    Item(ItemView),
    /// The payload of a revision did not parse; the revision has no patch.
    PayloadRejected { entity_id: Seq<char>, revision_id: u64 },
    /// The stream ended between items.
    Finished,
}

/// What is known of a revision that is open. It has no patch: a patch is
/// computed when the revision closes.
#[verifier::ext_equal]
pub struct OpenRevision {
    pub id: u64,
    pub parent_id: u64,
    pub timestamp: Seq<char>,
    pub username: Seq<char>,
    pub comment: Seq<char>,
}

/// The closed revision with the fields of the open one and the given patch.
pub open spec fn closed_revision(open: OpenRevision, patch: Option<json_patch::Patch>) -> RevisionView {
    RevisionView {
        id: open.id,
        parent_id: open.parent_id,
        timestamp: open.timestamp,
        username: open.username,
        comment: open.comment,
        entity_diff: patch,
    }
}

/// The state of the machine, in spec terms.
#[verifier::ext_equal]
pub struct ParserView {
    pub policy: FormatPolicy,
    pub context: Context,
    /// The field whose text is awaited; `Tag::Other` where none is.
    pub field: Tag,
    pub membership: Membership,
    pub item_id: u64,
    pub entity_id: Seq<char>,
    /// The revisions of the current item that are closed.
    pub revisions: Seq<RevisionView>,
    /// The last valid payload of the current item.
    pub previous: Option<serde_json::Value>,
    /// The revision that is open, as far as it is known.
    pub revision: OpenRevision,
    /// Whether the open revision declared the expected format.
    pub format_valid: bool,
    /// The payload text of the open revision, as far as it was read.
    pub payload: Seq<char>,
}

/// The media type that a payload must declare to be compared.
pub open spec fn expected_format() -> Seq<char> {
    "application/json"@
}

/// A revision of which nothing is known yet.
pub open spec fn blank_revision() -> OpenRevision {
    OpenRevision {
        id: 0,
        parent_id: 0,
        timestamp: Seq::empty(),
        username: Seq::empty(),
        comment: Seq::empty(),
    }
}

/// The state between items.
pub open spec fn idle(policy: FormatPolicy) -> ParserView {
    ParserView {
        policy,
        context: Context::OutsideItem,
        field: Tag::Other,
        membership: Membership::Undecided,
        item_id: 0,
        entity_id: Seq::empty(),
        revisions: Seq::empty(),
        previous: None,
        revision: blank_revision(),
        format_valid: false,
        payload: Seq::empty(),
    }
}

/// The state after an item opened: nothing of an earlier item is left.
pub open spec fn open_item(s: ParserView) -> ParserView {
    ParserView { context: Context::InItem, ..idle(s.policy) }
}

/// The state after a revision opened.
pub open spec fn open_revision(s: ParserView) -> ParserView {
    ParserView {
        context: Context::InRevision,
        field: Tag::Other,
        revision: blank_revision(),
        format_valid: false,
        payload: Seq::empty(),
        ..s
    }
}

/// The document against which a payload is compared: the previous valid
/// payload of the item, or the empty object where there is none.
pub open spec fn base_document(previous: Option<serde_json::Value>) -> serde_json::Value {
    match previous {
        Some(document) => document,
        None => parsed_document(empty_object_text())->0,
    }
}

/// The state after the open revision closed without a patch and stayed in
/// the history or not.
pub open spec fn revision_closed(s: ParserView, kept: bool) -> ParserView {
    ParserView {
        context: Context::InItem,
        field: Tag::Other,
        revisions: if kept {
            s.revisions.push(closed_revision(s.revision, None))
        } else {
            s.revisions
        },
        revision: blank_revision(),
        format_valid: false,
        payload: Seq::empty(),
        ..s
    }
}

/// The state after the open revision closed with `document` as its payload
/// and `patch` as its patch.
pub open spec fn revision_recorded(
    s: ParserView,
    document: serde_json::Value,
    patch: json_patch::Patch,
) -> ParserView {
    ParserView {
        context: Context::InItem,
        field: Tag::Other,
        revisions: s.revisions.push(closed_revision(s.revision, Some(patch))),
        previous: Some(document),
        revision: blank_revision(),
        format_valid: false,
        payload: Seq::empty(),
        ..s
    }
}

/// Whether the open revision is compared when it closes: it declared the
/// expected format, and its item is not known to be rejected.
pub open spec fn revision_is_compared(s: ParserView) -> bool {
    s.membership != Membership::Rejected && s.format_valid
}

/// Closing a revision whose payload text read as `parsed`.
pub open spec fn after_revision_with(s: ParserView, parsed: Option<serde_json::Value>) -> (
    ParserView,
    OutcomeView,
) {
    if s.membership == Membership::Rejected {
        (revision_closed(s, false), OutcomeView::Continue)
    } else if !s.format_valid {
        (revision_closed(s, s.policy == FormatPolicy::Retain), OutcomeView::Continue)
    } else {
        match parsed {
            Some(document) => (
                revision_recorded(
                    s,
                    document,
                    document_diff(base_document(s.previous), document),
                ),
                OutcomeView::Continue,
            ),
            None => (
                revision_closed(s, true),
                OutcomeView::PayloadRejected {
                    entity_id: s.entity_id,
                    revision_id: s.revision.id,
                },
            ),
        }
    }
}

/// Whether a revision that closes with the payload `parsed` is compared with
/// a document that is the same as its own.
pub open spec fn repeats_payload(s: ParserView, parsed: Option<serde_json::Value>) -> bool {
    revision_is_compared(s) && parsed == Some(base_document(s.previous))
}

/// The number of edit operations of the patch of the last closed revision.
pub open spec fn last_patch_length(s: ParserView) -> nat {
    patch_length(s.revisions.last().entity_diff->0)
}

/// Closing the open revision.
pub open spec fn after_revision(s: ParserView) -> (ParserView, OutcomeView) {
    after_revision_with(s, parsed_document(s.payload))
}

/// Whether the item that closes is handed on: it passed the filter and has a
/// valid payload.
pub open spec fn item_is_emitted(s: ParserView) -> bool {
    s.membership == Membership::Accepted && s.previous is Some
}

/// The item that the state holds.
pub open spec fn pending_item(s: ParserView) -> ItemView {
    ItemView {
        id: s.item_id,
        entity_id: s.entity_id,
        entity_json: s.previous->0,
        revisions: s.revisions,
    }
}

/// Closing the open item.
pub open spec fn after_item(s: ParserView) -> (ParserView, OutcomeView) {
    if item_is_emitted(s) {
        (idle(s.policy), OutcomeView::Item(pending_item(s)))
    } else {
        (idle(s.policy), OutcomeView::Continue)
    }
}

/// Whether a text that arrives now is read at all. The payload is read
/// whatever is known of its format so far, unless the item is known to be
/// rejected.
pub open spec fn wants_text(s: ParserView) -> bool {
    match s.context {
        Context::OutsideItem => false,
        Context::InItem => s.field == Tag::Title || s.field == Tag::Id,
        Context::InRevision => match s.field {
            Tag::Id | Tag::ParentId | Tag::Timestamp | Tag::Username | Tag::Comment | Tag::Format => true,
            Tag::Text => s.membership != Membership::Rejected,
            _ => false,
        },
        Context::InRevisionContributor => s.field == Tag::Username,
    }
}

/// A step that changes the state and hands nothing on.
pub open spec fn moved(s: ParserView) -> (ParserView, Result<OutcomeView, StreamError>) {
    (s, Ok(OutcomeView::Continue))
}

/// A step that fails and leaves the state as it was.
pub open spec fn failed(s: ParserView, error: StreamError) -> (
    ParserView,
    Result<OutcomeView, StreamError>,
) {
    (s, Err(error))
}

/// Storing a number read from `text`, or failing where it is none.
pub open spec fn with_number(
    s: ParserView,
    text: Seq<char>,
    store: spec_fn(u64) -> ParserView,
) -> (ParserView, Result<OutcomeView, StreamError>) {
    match parsed_u64(text) {
        Some(number) => moved(store(number)),
        None => failed(s, StreamError::InvalidNumber),
    }
}

/// Taking the decoded text of the awaited field.
pub open spec fn after_text(s: ParserView, text: Seq<char>, filter: MembershipFilter) -> (
    ParserView,
    Result<OutcomeView, StreamError>,
) {
    if !wants_text(s) {
        moved(s)
    } else {
        match s.context {
            Context::InItem => if s.field == Tag::Title {
                if s.membership == Membership::Undecided {
                    moved(
                        ParserView {
                            entity_id: text,
                            membership: if filter.accepts(text) {
                                Membership::Accepted
                            } else {
                                Membership::Rejected
                            },
                            ..s
                        },
                    )
                } else {
                    moved(s)
                }
            } else {
                with_number(s, text, |number: u64| ParserView { item_id: number, ..s })
            },
            Context::InRevision => match s.field {
                Tag::Id => with_number(
                    s,
                    text,
                    |number: u64| ParserView { revision: OpenRevision { id: number, ..s.revision }, ..s },
                ),
                Tag::ParentId => with_number(
                    s,
                    text,
                    |number: u64|
                        ParserView { revision: OpenRevision { parent_id: number, ..s.revision }, ..s },
                ),
                Tag::Timestamp => moved(
                    ParserView { revision: OpenRevision { timestamp: text, ..s.revision }, ..s },
                ),
                Tag::Username => moved(
                    ParserView { revision: OpenRevision { username: text, ..s.revision }, ..s },
                ),
                Tag::Comment => moved(
                    ParserView { revision: OpenRevision { comment: text, ..s.revision }, ..s },
                ),
                Tag::Format => moved(ParserView { format_valid: text == expected_format(), ..s }),
                _ => moved(ParserView { payload: s.payload + text, ..s }),
            },
            _ => moved(ParserView { revision: OpenRevision { username: text, ..s.revision }, ..s }),
        }
    }
}

/// Opening an element.
pub open spec fn after_start(s: ParserView, tag: Tag) -> (
    ParserView,
    Result<OutcomeView, StreamError>,
) {
    match tag {
        Tag::Page => if s.context == Context::OutsideItem {
            moved(open_item(s))
        } else {
            failed(s, StreamError::UnexpectedStart(tag))
        },
        Tag::Revision => if s.context == Context::InItem {
            moved(open_revision(s))
        } else {
            failed(s, StreamError::UnexpectedStart(tag))
        },
        Tag::Contributor => if s.context == Context::InRevision {
            moved(ParserView { context: Context::InRevisionContributor, field: Tag::Other, ..s })
        } else {
            failed(s, StreamError::UnexpectedStart(tag))
        },
        _ => if s.context == Context::OutsideItem {
            moved(s)
        } else {
            moved(ParserView { field: tag, ..s })
        },
    }
}

/// Closing an element.
pub open spec fn after_end(s: ParserView, tag: Tag) -> (
    ParserView,
    Result<OutcomeView, StreamError>,
) {
    match tag {
        Tag::Page => if s.context == Context::InItem {
            (after_item(s).0, Ok(after_item(s).1))
        } else {
            failed(s, StreamError::UnexpectedEnd(tag))
        },
        Tag::Revision => if s.context == Context::InRevision {
            (after_revision(s).0, Ok(after_revision(s).1))
        } else {
            failed(s, StreamError::UnexpectedEnd(tag))
        },
        Tag::Contributor => if s.context == Context::InRevisionContributor {
            moved(ParserView { context: Context::InRevision, field: Tag::Other, ..s })
        } else {
            failed(s, StreamError::UnexpectedEnd(tag))
        },
        _ => moved(ParserView { field: Tag::Other, ..s }),
    }
}

/// One step of the machine: the state after `event` and what the step yields.
/// A failed step leaves the state as it was.
pub open spec fn after_event(s: ParserView, event: EventView, filter: MembershipFilter) -> (
    ParserView,
    Result<OutcomeView, StreamError>,
) {
    match event {
        EventView::Start(tag) => after_start(s, tag),
        EventView::End(tag) => after_end(s, tag),
        EventView::Text(decoded) => if !wants_text(s) {
            moved(s)
        } else {
            match decoded {
                Some(text) => after_text(s, text, filter),
                None => failed(s, StreamError::UndecodableText),
            }
        },
        EventView::Other => moved(s),
        EventView::Eof => if s.context == Context::OutsideItem {
            (s, Ok(OutcomeView::Finished))
        } else {
            failed(s, StreamError::Truncated)
        },
    }
}

/// Ownership of numeric identifiers. While the parser stands inside a
/// contributor, no event changes the identifier of the item or the identifier
/// or parent of the open revision: a number read there belongs to neither.
pub proof fn law_contributor_id_is_ignored(
    s: ParserView,
    event: EventView,
    filter: MembershipFilter,
)
    requires
        s.context == Context::InRevisionContributor,
    ensures
        after_event(s, event, filter).0.item_id == s.item_id,
        after_event(s, event, filter).0.revision.id == s.revision.id,
        after_event(s, event, filter).0.revision.parent_id == s.revision.parent_id,
        s.field == Tag::Id && event is Text ==> after_event(s, event, filter) == moved(s),
{
}

/// Revisions of another format. A revision that did not declare the expected
/// format closes without a patch, whether it stays in the history or not, and
/// the previous valid payload of the item stays what it was.
pub proof fn law_other_format_is_not_compared(s: ParserView)
    requires
        !s.format_valid,
    ensures
        after_revision(s).1 == OutcomeView::Continue,
        after_revision(s).0.previous == s.previous,
        after_revision(s).0.revisions == if s.membership != Membership::Rejected && s.policy
            == FormatPolicy::Retain {
            s.revisions.push(closed_revision(s.revision, None))
        } else {
            s.revisions
        },
        forall|i: int|
            s.revisions.len() <= i < after_revision(s).0.revisions.len() ==> (
            #[trigger] after_revision(s).0.revisions[i]).entity_diff is None,
{
}

/// The declared format. The text of a format field decides whether the open
/// revision is compared: it is valid exactly where it is the expected media
/// type.
pub proof fn law_format_decides(s: ParserView, text: Seq<char>, filter: MembershipFilter)
    requires
        s.context == Context::InRevision,
        s.field == Tag::Format,
    ensures
        after_text(s, text, filter).0.format_valid == (text == expected_format()),
        after_text(s, text, filter).0.previous == s.previous,
{
}

/// What one step of the parser yields.
#[derive(Debug)]
pub enum Outcome {
    /// Nothing to hand on.
    Continue,
    /// An item is complete and goes to the batch writer.
    Item(WikidataItem),
    /// The payload of a revision did not parse; the revision was kept without
    /// a patch. Reported so that the revision can be processed again by hand.
    PayloadRejected { entity_id: String, revision_id: u64 },
    /// The stream ended between items.
    Finished,
}

impl View for Outcome {
    type V = OutcomeView;

    open spec fn view(&self) -> OutcomeView {
        match self {
            Outcome::Continue => OutcomeView::Continue,
            Outcome::Item(item) => OutcomeView::Item(item@),
            Outcome::PayloadRejected { entity_id, revision_id } => OutcomeView::PayloadRejected {
                entity_id: entity_id@,
                revision_id: *revision_id,
            },
            Outcome::Finished => OutcomeView::Finished,
        }
    }
}

/// The result of a step, in spec terms.
pub open spec fn result_view(result: Result<Outcome, StreamError>) -> Result<
    OutcomeView,
    StreamError,
> {
    match result {
        Ok(outcome) => Ok(outcome@),
        Err(error) => Err(error),
    }
}

/// What is known of the revision that is open.
#[derive(Debug)]
struct PendingRevision {
    id: u64,
    parent_id: u64,
    timestamp: String,
    username: String,
    comment: String,
}

impl View for PendingRevision {
    type V = OpenRevision;

    closed spec fn view(&self) -> OpenRevision {
        OpenRevision {
            id: self.id,
            parent_id: self.parent_id,
            timestamp: self.timestamp@,
            username: self.username@,
            comment: self.comment@,
        }
    }
}

impl PendingRevision {
    fn close(self, patch: Option<json_patch::Patch>) -> (revision: WikidataRevision)
        ensures
            revision@ == closed_revision(self@, patch),
    {
        WikidataRevision {
            id: self.id,
            parent_id: self.parent_id,
            timestamp: self.timestamp,
            username: self.username,
            comment: self.comment,
            entity_diff: patch,
        }
    }
}

/// The dump parser. It holds the state of one item at a time.
#[derive(Debug)]
pub struct DumpParser {
    policy: FormatPolicy,
    context: Context,
    field: Tag,
    membership: Membership,
    item_id: u64,
    entity_id: String,
    revisions: Vec<WikidataRevision>,
    previous: Option<serde_json::Value>,
    revision: PendingRevision,
    format_valid: bool,
    payload: String,
}

impl View for DumpParser {
    type V = ParserView;

    closed spec fn view(&self) -> ParserView {
        ParserView {
            policy: self.policy,
            context: self.context,
            field: self.field,
            membership: self.membership,
            item_id: self.item_id,
            entity_id: self.entity_id@,
            revisions: revision_views(self.revisions@),
            previous: self.previous,
            revision: self.revision@,
            format_valid: self.format_valid,
            payload: self.payload@,
        }
    }
}

fn new_revision() -> (revision: PendingRevision)
    ensures
        revision@ == blank_revision(),
{
    PendingRevision {
        id: 0,
        parent_id: 0,
        timestamp: String::new(),
        username: String::new(),
        comment: String::new(),
    }
}

impl DumpParser {
    /// A parser that stands between items.
    pub fn new(policy: FormatPolicy) -> (parser: DumpParser)
        ensures
            parser@ == idle(policy),
    {
        DumpParser {
            policy,
            context: Context::OutsideItem,
            field: Tag::Other,
            membership: Membership::Undecided,
            item_id: 0,
            entity_id: String::new(),
            revisions: Vec::new(),
            previous: None,
            revision: new_revision(),
            format_valid: false,
            payload: String::new(),
        }
    }

    /// Where in the tree the parser stands.
    pub fn context(&self) -> (context: Context)
        ensures
            context == self@.context,
    {
        self.context
    }

    fn clear_revision(&mut self)
        ensures
            final(self)@ == (ParserView {
                field: Tag::Other,
                revision: blank_revision(),
                format_valid: false,
                payload: Seq::empty(),
                ..old(self)@
            }),
    {
        self.field = Tag::Other;
        self.revision = new_revision();
        self.format_valid = false;
        self.payload = String::new();
    }

    /// Takes the start of an element.
    pub fn on_start(&mut self, tag: Tag) -> (result: Result<Outcome, StreamError>)
        ensures
            (final(self)@, result_view(result)) == after_start(old(self)@, tag),
    {
        match tag {
            Tag::Page => {
                if self.context == Context::OutsideItem {
                    self.clear_revision();
                    self.context = Context::InItem;
                    self.membership = Membership::Undecided;
                    self.item_id = 0;
                    self.entity_id = String::new();
                    self.revisions = Vec::new();
                    self.previous = None;
                    assert(self@ =~= open_item(old(self)@));
                    Ok(Outcome::Continue)
                } else {
                    Err(StreamError::UnexpectedStart(tag))
                }
            },
            Tag::Revision => {
                if self.context == Context::InItem {
                    self.clear_revision();
                    self.context = Context::InRevision;
                    Ok(Outcome::Continue)
                } else {
                    Err(StreamError::UnexpectedStart(tag))
                }
            },
            Tag::Contributor => {
                if self.context == Context::InRevision {
                    self.context = Context::InRevisionContributor;
                    self.field = Tag::Other;
                    Ok(Outcome::Continue)
                } else {
                    Err(StreamError::UnexpectedStart(tag))
                }
            },
            _ => {
                if self.context != Context::OutsideItem {
                    self.field = tag;
                }
                Ok(Outcome::Continue)
            },
        }
    }

    /// Closes the open revision with `document` as its payload and `patch` as
    /// the patch that leads to it.
    pub fn record_revision(&mut self, document: serde_json::Value, patch: json_patch::Patch)
        ensures
            final(self)@ == revision_recorded(old(self)@, document, patch),
    {
        let mut open = new_revision();
        std::mem::swap(&mut open, &mut self.revision);
        let revision = open.close(Some(patch));
        proof {
            lemma_revision_views_push(self.revisions@, revision);
        }
        self.revisions.push(revision);
        self.previous = Some(document);
        self.clear_revision();
        self.context = Context::InItem;
        assert(self@ =~= revision_recorded(old(self)@, document, patch));
    }

    fn drop_revision(&mut self, kept: bool)
        ensures
            final(self)@ == revision_closed(old(self)@, kept),
    {
        if kept {
            let mut open = new_revision();
            std::mem::swap(&mut open, &mut self.revision);
            let revision = open.close(None);
            proof {
                lemma_revision_views_push(self.revisions@, revision);
            }
            self.revisions.push(revision);
        }
        self.clear_revision();
        self.context = Context::InItem;
        assert(self@ =~= revision_closed(old(self)@, kept));
    }

    /// Whether the open revision is compared when it closes.
    pub fn compares_revision(&self) -> (compared: bool)
        ensures
            compared == revision_is_compared(self@),
    {
        self.membership != Membership::Rejected && self.format_valid
    }

    /// Closes the open revision, given what its payload text parsed to. The
    /// parse is looked at only where the revision is compared.
    pub fn finish_revision(&mut self, parsed: Option<serde_json::Value>) -> (outcome: Outcome)
        ensures
            (final(self)@, outcome@) == after_revision_with(old(self)@, parsed),
            repeats_payload(old(self)@, parsed) ==> last_patch_length(final(self)@) == 0,
    {
        if self.membership == Membership::Rejected {
            self.drop_revision(false);
            Outcome::Continue
        } else if !self.format_valid {
            self.drop_revision(self.policy == FormatPolicy::Retain);
            Outcome::Continue
        } else {
            match parsed {
                Some(document) => {
                    let patch = match &self.previous {
                        Some(previous) => diff_documents(previous, &document),
                        None => {
                            let empty = empty_document();
                            diff_documents(&empty, &document)
                        },
                    };
                    self.record_revision(document, patch);
                    Outcome::Continue
                },
                None => {
                    let entity_id = self.entity_id.clone();
                    let revision_id = self.revision.id;
                    self.drop_revision(true);
                    Outcome::PayloadRejected { entity_id, revision_id }
                },
            }
        }
    }

    fn finish_item(&mut self) -> (outcome: Outcome)
        ensures
            (final(self)@, outcome@) == after_item(old(self)@),
    {
        let accepted = self.membership == Membership::Accepted;
        let id = self.item_id;
        let mut entity_id = String::new();
        std::mem::swap(&mut entity_id, &mut self.entity_id);
        let mut revisions: Vec<WikidataRevision> = Vec::new();
        std::mem::swap(&mut revisions, &mut self.revisions);
        let previous = self.previous.take();
        self.clear_revision();
        self.context = Context::OutsideItem;
        self.membership = Membership::Undecided;
        self.item_id = 0;
        assert(self@ =~= idle(old(self)@.policy));
        match previous {
            Some(entity_json) => {
                if accepted {
                    Outcome::Item(WikidataItem { id, entity_id, entity_json, revisions })
                } else {
                    Outcome::Continue
                }
            },
            None => Outcome::Continue,
        }
    }

    /// Takes the end of an element.
    pub fn on_end(&mut self, tag: Tag) -> (result: Result<Outcome, StreamError>)
        ensures
            (final(self)@, result_view(result)) == after_end(old(self)@, tag),
            tag == Tag::Revision && old(self)@.context == Context::InRevision && repeats_payload(
                old(self)@,
                parsed_document(old(self)@.payload),
            ) ==> last_patch_length(final(self)@) == 0,
    {
        match tag {
            Tag::Page => {
                if self.context == Context::InItem {
                    Ok(self.finish_item())
                } else {
                    Err(StreamError::UnexpectedEnd(tag))
                }
            },
            Tag::Revision => {
                if self.context == Context::InRevision {
                    let parsed = if self.compares_revision() {
                        parse_document(self.payload.as_str())
                    } else {
                        None
                    };
                    Ok(self.finish_revision(parsed))
                } else {
                    Err(StreamError::UnexpectedEnd(tag))
                }
            },
            Tag::Contributor => {
                if self.context == Context::InRevisionContributor {
                    self.context = Context::InRevision;
                    self.field = Tag::Other;
                    Ok(Outcome::Continue)
                } else {
                    Err(StreamError::UnexpectedEnd(tag))
                }
            },
            _ => {
                self.field = Tag::Other;
                Ok(Outcome::Continue)
            },
        }
    }

    /// Whether a text that arrives now is read at all.
    pub fn wants_text(&self) -> (wanted: bool)
        ensures
            wanted == wants_text(self@),
    {
        match self.context {
            Context::OutsideItem => false,
            Context::InItem => self.field == Tag::Title || self.field == Tag::Id,
            Context::InRevision => match self.field {
                Tag::Id | Tag::ParentId | Tag::Timestamp | Tag::Username | Tag::Comment | Tag::Format => true,
                Tag::Text => self.membership != Membership::Rejected,
                _ => false,
            },
            Context::InRevisionContributor => self.field == Tag::Username,
        }
    }

    /// Takes the decoded text of the awaited field.
    pub fn on_text(&mut self, text: String, filter: &MembershipFilter) -> (result: Result<
        Outcome,
        StreamError,
    >)
        ensures
            (final(self)@, result_view(result)) == after_text(old(self)@, text@, *filter),
    {
        if !self.wants_text() {
            return Ok(Outcome::Continue);
        }
        match self.context {
            Context::InItem => {
                if self.field == Tag::Title {
                    if self.membership == Membership::Undecided {
                        self.membership = if filter.contains(text.as_str()) {
                            Membership::Accepted
                        } else {
                            Membership::Rejected
                        };
                        self.entity_id = text;
                    }
                    Ok(Outcome::Continue)
                } else {
                    match parse_u64(text.as_str()) {
                        Some(number) => {
                            self.item_id = number;
                            Ok(Outcome::Continue)
                        },
                        None => Err(StreamError::InvalidNumber),
                    }
                }
            },
            Context::InRevision => match self.field {
                Tag::Id => match parse_u64(text.as_str()) {
                    Some(number) => {
                        self.revision.id = number;
                        Ok(Outcome::Continue)
                    },
                    None => Err(StreamError::InvalidNumber),
                },
                Tag::ParentId => match parse_u64(text.as_str()) {
                    Some(number) => {
                        self.revision.parent_id = number;
                        Ok(Outcome::Continue)
                    },
                    None => Err(StreamError::InvalidNumber),
                },
                Tag::Timestamp => {
                    self.revision.timestamp = text;
                    Ok(Outcome::Continue)
                },
                Tag::Username => {
                    self.revision.username = text;
                    Ok(Outcome::Continue)
                },
                Tag::Comment => {
                    self.revision.comment = text;
                    Ok(Outcome::Continue)
                },
                Tag::Format => {
                    self.format_valid = str_equal(text.as_str(), "application/json");
                    Ok(Outcome::Continue)
                },
                _ => {
                    self.payload.append(text.as_str());
                    Ok(Outcome::Continue)
                },
            },
            _ => {
                self.revision.username = text;
                Ok(Outcome::Continue)
            },
        }
    }

    /// Takes the next event of the stream.
    pub fn step(&mut self, event: &XmlEvent, filter: &MembershipFilter) -> (result: Result<
        Outcome,
        StreamError,
    >)
        ensures
            (final(self)@, result_view(result)) == after_event(old(self)@, event@, *filter),
            event@ == EventView::End(Tag::Revision) && old(self)@.context == Context::InRevision
                && repeats_payload(old(self)@, parsed_document(old(self)@.payload))
                ==> last_patch_length(final(self)@) == 0,
    {
        match event {
            XmlEvent::Start(name) => self.on_start(classify_tag(name.as_slice())),
            XmlEvent::End(name) => self.on_end(classify_tag(name.as_slice())),
            XmlEvent::Text(raw) => {
                if self.wants_text() {
                    match decode_text(raw.as_slice()) {
                        Some(text) => self.on_text(text, filter),
                        None => Err(StreamError::UndecodableText),
                    }
                } else {
                    Ok(Outcome::Continue)
                }
            },
            XmlEvent::Other => Ok(Outcome::Continue),
            XmlEvent::Eof => {
                if self.context == Context::OutsideItem {
                    Ok(Outcome::Finished)
                } else {
                    Err(StreamError::Truncated)
                }
            },
        }
    }
}

} // verus!
