//! Well-formed dumps: what the parser makes of a stream whose items,
//! revisions and contributors are balanced.
//!
//! A dump is described by its parts. Between and inside its pages stand
//! pieces: elements with a name that the parser knows and one text, the same
//! elements without a text, and the events of whatever else the archive
//! writes. The pieces of a page, of a revision and of a contributor may come
//! in any order and any number of times. The events of a dump are given by
//! `dump_events`; the items that belong to it are given by `items_of`,
//! without any reference to the state machine. The laws at the end of this
//! module show that the parser yields exactly these items.

use vstd::prelude::*;
use crate::document::{document_diff, parsed_document};
use crate::filter::MembershipFilter;
use crate::markup::{EventView, Tag};
use crate::model::{ItemView, RevisionView};
use crate::parser::{
    after_event, after_revision, after_text, base_document, closed_revision, expected_format,
    idle, Context, FormatPolicy, Membership, OpenRevision, OutcomeView,
    ParserView,
};
use crate::pipeline::{
    is_running, lemma_trace_concat, lemma_trace_one, start_trace, trace_event, trace_events,
    trace_source, RejectedView, TraceView,
};
use crate::text::parsed_u64;

verus! {

/// What stands inside an item, a revision or a contributor besides
/// revisions and contributors.
pub enum Piece {
    /// An element with a name that the parser knows, holding one text.
    Field { tag: Tag, text: Seq<char> },
    /// An element with a name that the parser knows, holding nothing.
    Empty { tag: Tag },
    /// The events of elements that the parser does not know, and tokens
    /// without a meaning for it.
    Filler(Seq<EventView>),
}

/// What stands inside a revision.
pub enum RevisionPart {
    Piece(Piece),
    Contributor(Seq<Piece>),
}

/// What stands inside a page.
pub enum PagePart {
    Piece(Piece),
    Revision(Seq<RevisionPart>),
}

/// What stands in a dump.
pub enum DumpPart {
    Filler(Seq<EventView>),
    Page(Seq<PagePart>),
}

/// Whether an event belongs to an element that the parser does not know, or
/// is a token without a meaning for it.
pub open spec fn is_filler_event(event: EventView) -> bool {
    match event {
        EventView::Start(tag) => tag == Tag::Other,
        EventView::End(tag) => tag == Tag::Other,
        EventView::Text(_) => true,
        EventView::Other => true,
        EventView::Eof => false,
    }
}

/// Whether all the events belong to elements that the parser does not know.
pub open spec fn is_filler(events: Seq<EventView>) -> bool {
    forall|i: int| 0 <= i < events.len() ==> is_filler_event(#[trigger] events[i])
}

/// Whether `tag` names a field, not an item, a revision or a contributor.
pub open spec fn is_field(tag: Tag) -> bool {
    tag != Tag::Page && tag != Tag::Revision && tag != Tag::Contributor && tag != Tag::Other
}

/// The text that a piece gives to the field `tag`, if it gives one.
pub open spec fn piece_text(piece: Piece, tag: Tag) -> Option<Seq<char>> {
    match piece {
        Piece::Field { tag: name, text } => if name == tag {
            Some(text)
        } else {
            None
        },
        _ => None,
    }
}

/// Whether a piece is well-formed: its name is that of a field, its filler
/// is filler.
pub open spec fn piece_is_well_formed(piece: Piece) -> bool {
    match piece {
        Piece::Field { tag, text } => is_field(tag),
        Piece::Empty { tag } => is_field(tag),
        Piece::Filler(events) => is_filler(events),
    }
}

/// Whether a piece gives a number to the field `tag`, where it gives it a
/// text.
pub open spec fn gives_number(piece: Piece, tag: Tag) -> bool {
    piece_text(piece, tag) is Some ==> parsed_u64(piece_text(piece, tag)->0) is Some
}

/// Whether the pieces of a contributor are well-formed.
pub open spec fn pieces_are_well_formed(pieces: Seq<Piece>) -> bool {
    forall|i: int| 0 <= i < pieces.len() ==> piece_is_well_formed(#[trigger] pieces[i])
}

/// Whether a part of a revision is well-formed: the identifiers that stand
/// in the revision itself are numbers.
pub open spec fn revision_part_is_well_formed(part: RevisionPart) -> bool {
    match part {
        RevisionPart::Piece(piece) => piece_is_well_formed(piece) && gives_number(piece, Tag::Id)
            && gives_number(piece, Tag::ParentId),
        RevisionPart::Contributor(pieces) => pieces_are_well_formed(pieces),
    }
}

/// Whether a revision is well-formed.
pub open spec fn revision_is_well_formed(parts: Seq<RevisionPart>) -> bool {
    forall|i: int| 0 <= i < parts.len() ==> revision_part_is_well_formed(#[trigger] parts[i])
}

/// Whether a part of a page is well-formed: the identifiers that stand in
/// the page itself are numbers.
pub open spec fn page_part_is_well_formed(part: PagePart) -> bool {
    match part {
        PagePart::Piece(piece) => piece_is_well_formed(piece) && gives_number(piece, Tag::Id),
        PagePart::Revision(parts) => revision_is_well_formed(parts),
    }
}

/// Whether a page is well-formed.
pub open spec fn page_is_well_formed(parts: Seq<PagePart>) -> bool {
    forall|i: int| 0 <= i < parts.len() ==> page_part_is_well_formed(#[trigger] parts[i])
}

/// Whether a part of a dump is well-formed.
pub open spec fn dump_part_is_well_formed(part: DumpPart) -> bool {
    match part {
        DumpPart::Filler(events) => is_filler(events),
        DumpPart::Page(parts) => page_is_well_formed(parts),
    }
}

/// Whether a dump is well-formed.
pub open spec fn dump_is_well_formed(parts: Seq<DumpPart>) -> bool {
    forall|i: int| 0 <= i < parts.len() ==> dump_part_is_well_formed(#[trigger] parts[i])
}

/// The events of an element that holds one text.
pub open spec fn field_events(tag: Tag, text: Seq<char>) -> Seq<EventView> {
    seq![EventView::Start(tag), EventView::Text(Some(text)), EventView::End(tag)]
}

/// The events of a piece.
pub open spec fn piece_events(piece: Piece) -> Seq<EventView> {
    match piece {
        Piece::Field { tag, text } => field_events(tag, text),
        Piece::Empty { tag } => seq![EventView::Start(tag), EventView::End(tag)],
        Piece::Filler(events) => events,
    }
}

/// The events of a sequence of pieces.
pub open spec fn pieces_events(pieces: Seq<Piece>) -> Seq<EventView>
    decreases pieces.len(),
{
    if pieces.len() == 0 {
        Seq::empty()
    } else {
        pieces_events(pieces.drop_last()) + piece_events(pieces.last())
    }
}

/// The events of a part of a revision.
pub open spec fn revision_part_events(part: RevisionPart) -> Seq<EventView> {
    match part {
        RevisionPart::Piece(piece) => piece_events(piece),
        RevisionPart::Contributor(pieces) => seq![EventView::Start(Tag::Contributor)]
            + pieces_events(pieces) + seq![EventView::End(Tag::Contributor)],
    }
}

/// The events of the parts of a revision.
pub open spec fn revision_parts_events(parts: Seq<RevisionPart>) -> Seq<EventView>
    decreases parts.len(),
{
    if parts.len() == 0 {
        Seq::empty()
    } else {
        revision_parts_events(parts.drop_last()) + revision_part_events(parts.last())
    }
}

/// The events of a revision.
pub open spec fn revision_events(parts: Seq<RevisionPart>) -> Seq<EventView> {
    seq![EventView::Start(Tag::Revision)] + revision_parts_events(parts) + seq![
        EventView::End(Tag::Revision),
    ]
}

/// The events of a part of a page.
pub open spec fn page_part_events(part: PagePart) -> Seq<EventView> {
    match part {
        PagePart::Piece(piece) => piece_events(piece),
        PagePart::Revision(parts) => revision_events(parts),
    }
}

/// The events of the parts of a page.
pub open spec fn page_parts_events(parts: Seq<PagePart>) -> Seq<EventView>
    decreases parts.len(),
{
    if parts.len() == 0 {
        Seq::empty()
    } else {
        page_parts_events(parts.drop_last()) + page_part_events(parts.last())
    }
}

/// The events of a page.
pub open spec fn page_events(parts: Seq<PagePart>) -> Seq<EventView> {
    seq![EventView::Start(Tag::Page)] + page_parts_events(parts) + seq![EventView::End(Tag::Page)]
}

/// The events of a part of a dump.
pub open spec fn dump_part_events(part: DumpPart) -> Seq<EventView> {
    match part {
        DumpPart::Filler(events) => events,
        DumpPart::Page(parts) => page_events(parts),
    }
}

/// The events of a dump, without the end of the stream.
pub open spec fn dump_events(parts: Seq<DumpPart>) -> Seq<EventView>
    decreases parts.len(),
{
    if parts.len() == 0 {
        Seq::empty()
    } else {
        dump_events(parts.drop_last()) + dump_part_events(parts.last())
    }
}

/// The text that the last of the pieces named `tag` gives, if there is one.
pub open spec fn last_text(pieces: Seq<Piece>, tag: Tag) -> Option<Seq<char>>
    decreases pieces.len(),
{
    if pieces.len() == 0 {
        None
    } else {
        match piece_text(pieces.last(), tag) {
            Some(text) => Some(text),
            None => last_text(pieces.drop_last(), tag),
        }
    }
}

/// The text that the first of the pieces named `tag` gives, if there is one.
pub open spec fn first_text(pieces: Seq<Piece>, tag: Tag) -> Option<Seq<char>>
    decreases pieces.len(),
{
    if pieces.len() == 0 {
        None
    } else {
        match first_text(pieces.drop_last(), tag) {
            Some(text) => Some(text),
            None => piece_text(pieces.last(), tag),
        }
    }
}

/// The texts that the pieces named `tag` give, one after the other.
pub open spec fn joined_text(pieces: Seq<Piece>, tag: Tag) -> Seq<char>
    decreases pieces.len(),
{
    if pieces.len() == 0 {
        Seq::empty()
    } else {
        joined_text(pieces.drop_last(), tag) + text_of(piece_text(pieces.last(), tag))
    }
}

/// The number that a text stands for; 0 where the text is missing.
pub open spec fn number_of(text: Option<Seq<char>>) -> u64 {
    match text {
        Some(text) => parsed_u64(text)->0,
        None => 0,
    }
}

/// A text, or the empty text where it is missing.
pub open spec fn text_of(text: Option<Seq<char>>) -> Seq<char> {
    match text {
        Some(text) => text,
        None => Seq::empty(),
    }
}

/// The pieces that stand in a revision itself, in order.
pub open spec fn own_pieces(parts: Seq<RevisionPart>) -> Seq<Piece>
    decreases parts.len(),
{
    if parts.len() == 0 {
        Seq::empty()
    } else {
        match parts.last() {
            RevisionPart::Piece(piece) => own_pieces(parts.drop_last()).push(piece),
            RevisionPart::Contributor(_) => own_pieces(parts.drop_last()),
        }
    }
}

/// The pieces that stand in a revision or in one of its contributors, in
/// order.
pub open spec fn all_pieces(parts: Seq<RevisionPart>) -> Seq<Piece>
    decreases parts.len(),
{
    if parts.len() == 0 {
        Seq::empty()
    } else {
        match parts.last() {
            RevisionPart::Piece(piece) => all_pieces(parts.drop_last()).push(piece),
            RevisionPart::Contributor(pieces) => all_pieces(parts.drop_last()) + pieces,
        }
    }
}

/// The pieces that stand in a page itself, in order.
pub open spec fn page_pieces(parts: Seq<PagePart>) -> Seq<Piece>
    decreases parts.len(),
{
    if parts.len() == 0 {
        Seq::empty()
    } else {
        match parts.last() {
            PagePart::Piece(piece) => page_pieces(parts.drop_last()).push(piece),
            PagePart::Revision(_) => page_pieces(parts.drop_last()),
        }
    }
}

/// The revisions of a page, in order.
pub open spec fn page_revisions(parts: Seq<PagePart>) -> Seq<Seq<RevisionPart>>
    decreases parts.len(),
{
    if parts.len() == 0 {
        Seq::empty()
    } else {
        match parts.last() {
            PagePart::Piece(_) => page_revisions(parts.drop_last()),
            PagePart::Revision(revision) => page_revisions(parts.drop_last()).push(revision),
        }
    }
}

/// What a revision holds when it closes: each field has the text of the last
/// element of its name, the name of the contributor may stand in the
/// revision or in a contributor.
pub open spec fn revision_fields(parts: Seq<RevisionPart>) -> OpenRevision {
    OpenRevision {
        id: number_of(last_text(own_pieces(parts), Tag::Id)),
        parent_id: number_of(last_text(own_pieces(parts), Tag::ParentId)),
        timestamp: text_of(last_text(own_pieces(parts), Tag::Timestamp)),
        username: text_of(last_text(all_pieces(parts), Tag::Username)),
        comment: text_of(last_text(own_pieces(parts), Tag::Comment)),
    }
}

/// A revision with the fields of its source and the given patch.
pub open spec fn revision_of(parts: Seq<RevisionPart>, patch: Option<json_patch::Patch>) -> RevisionView {
    closed_revision(revision_fields(parts), patch)
}

/// Whether a revision declares the expected format: the last format that it
/// declares is the expected one.
pub open spec fn has_expected_format(parts: Seq<RevisionPart>) -> bool {
    last_text(own_pieces(parts), Tag::Format) == Some(expected_format())
}

/// The payload text of a revision.
pub open spec fn payload_of(parts: Seq<RevisionPart>) -> Seq<char> {
    joined_text(own_pieces(parts), Tag::Text)
}

/// Whether a revision is valid: it declares the expected format and its
/// payload parses.
pub open spec fn is_valid_revision(parts: Seq<RevisionPart>) -> bool {
    has_expected_format(parts) && parsed_document(payload_of(parts)) is Some
}

/// What an item has gathered from its revisions.
#[verifier::ext_equal]
pub struct Gathered {
    pub revisions: Seq<RevisionView>,
    /// The last valid payload.
    pub previous: Option<serde_json::Value>,
    /// The payloads that did not parse.
    pub rejected: Seq<RejectedView>,
}

/// What an item has gathered after one more revision. A valid revision is
/// compared with the last valid payload before it; a revision of the
/// expected format whose payload does not parse is kept without a patch and
/// reported; one of another format is kept without a patch or dropped, as the
/// policy says.
pub open spec fn with_revision(
    before: Gathered,
    revision: Seq<RevisionPart>,
    entity_id: Seq<char>,
    policy: FormatPolicy,
) -> Gathered {
    if !has_expected_format(revision) {
        Gathered {
            revisions: if policy == FormatPolicy::Retain {
                before.revisions.push(revision_of(revision, None))
            } else {
                before.revisions
            },
            ..before
        }
    } else {
        match parsed_document(payload_of(revision)) {
            Some(document) => Gathered {
                revisions: before.revisions.push(
                    revision_of(
                        revision,
                        Some(document_diff(base_document(before.previous), document)),
                    ),
                ),
                previous: Some(document),
                ..before
            },
            None => Gathered {
                revisions: before.revisions.push(revision_of(revision, None)),
                rejected: before.rejected.push(
                    RejectedView { entity_id, revision_id: revision_fields(revision).id },
                ),
                ..before
            },
        }
    }
}

/// The title of a page: the text of the first title that stands in the page
/// itself.
pub open spec fn title_of(parts: Seq<PagePart>) -> Option<Seq<char>> {
    first_text(page_pieces(parts), Tag::Title)
}

/// What the filter says of an item with the given title.
pub open spec fn membership_of(title: Option<Seq<char>>, filter: MembershipFilter) -> Membership {
    match title {
        None => Membership::Undecided,
        Some(title) => if filter.accepts(title) {
            Membership::Accepted
        } else {
            Membership::Rejected
        },
    }
}

/// What a page has gathered after the given parts. A revision counts unless
/// a title before it was rejected.
pub open spec fn gathered(parts: Seq<PagePart>, filter: MembershipFilter, policy: FormatPolicy) -> Gathered
    decreases parts.len(),
{
    if parts.len() == 0 {
        Gathered { revisions: Seq::empty(), previous: None, rejected: Seq::empty() }
    } else {
        let before = gathered(parts.drop_last(), filter, policy);
        match parts.last() {
            PagePart::Revision(revision) => if membership_of(
                title_of(parts.drop_last()),
                filter,
            ) == Membership::Rejected {
                before
            } else {
                with_revision(before, revision, text_of(title_of(parts.drop_last())), policy)
            },
            PagePart::Piece(_) => before,
        }
    }
}

/// Whether the filter accepts a page: the page has a title and the filter
/// accepts it.
pub open spec fn page_is_accepted(parts: Seq<PagePart>, filter: MembershipFilter) -> bool {
    membership_of(title_of(parts), filter) == Membership::Accepted
}

/// Whether a page yields an item: the filter accepts it and it has a valid
/// revision.
pub open spec fn page_qualifies(parts: Seq<PagePart>, filter: MembershipFilter, policy: FormatPolicy) -> bool {
    page_is_accepted(parts, filter) && gathered(parts, filter, policy).previous is Some
}

/// The item of a page that qualifies.
pub open spec fn item_of(parts: Seq<PagePart>, filter: MembershipFilter, policy: FormatPolicy) -> ItemView {
    ItemView {
        id: number_of(last_text(page_pieces(parts), Tag::Id)),
        entity_id: text_of(title_of(parts)),
        entity_json: gathered(parts, filter, policy).previous->0,
        revisions: gathered(parts, filter, policy).revisions,
    }
}

/// The items of a dump: those of its pages that qualify, in the order of the
/// pages.
pub open spec fn items_of(parts: Seq<DumpPart>, filter: MembershipFilter, policy: FormatPolicy) -> Seq<ItemView>
    decreases parts.len(),
{
    if parts.len() == 0 {
        Seq::empty()
    } else {
        let earlier = items_of(parts.drop_last(), filter, policy);
        match parts.last() {
            DumpPart::Page(page) => if page_qualifies(page, filter, policy) {
                earlier.push(item_of(page, filter, policy))
            } else {
                earlier
            },
            DumpPart::Filler(_) => earlier,
        }
    }
}

/// The rejected payloads of a dump, in the order of the stream.
pub open spec fn rejected_of(parts: Seq<DumpPart>, filter: MembershipFilter, policy: FormatPolicy) -> Seq<RejectedView>
    decreases parts.len(),
{
    if parts.len() == 0 {
        Seq::empty()
    } else {
        let earlier = rejected_of(parts.drop_last(), filter, policy);
        match parts.last() {
            DumpPart::Page(page) => earlier + gathered(page, filter, policy).rejected,
            DumpPart::Filler(_) => earlier,
        }
    }
}

/// What one more piece does to the texts of a field.
proof fn lemma_texts_push(pieces: Seq<Piece>, piece: Piece, tag: Tag)
    ensures
        last_text(pieces.push(piece), tag) == match piece_text(piece, tag) {
            Some(text) => Some(text),
            None => last_text(pieces, tag),
        },
        first_text(pieces.push(piece), tag) == match first_text(pieces, tag) {
            Some(text) => Some(text),
            None => piece_text(piece, tag),
        },
        joined_text(pieces.push(piece), tag) == joined_text(pieces, tag) + text_of(
            piece_text(piece, tag),
        ),
{
    assert(pieces.push(piece).drop_last() =~= pieces);
    assert(pieces.push(piece).last() == piece);
}

/// The last text of a field among two sequences of pieces, one after the
/// other.
proof fn lemma_last_text_concat(first: Seq<Piece>, second: Seq<Piece>, tag: Tag)
    ensures
        last_text(first + second, tag) == match last_text(second, tag) {
            Some(text) => Some(text),
            None => last_text(first, tag),
        },
    decreases second.len(),
{
    if second.len() == 0 {
        assert(first + second =~= first);
    } else {
        lemma_last_text_concat(first, second.drop_last(), tag);
        assert((first + second).drop_last() =~= first + second.drop_last());
        assert((first + second).last() == second.last());
    }
}

/// The trace after a filler: nothing but the position changes.
proof fn lemma_filler(trace: TraceView, events: Seq<EventView>, filter: MembershipFilter)
    requires
        is_running(trace),
        trace.parser.field == Tag::Other,
        is_filler(events),
    ensures
        trace_events(trace, events, filter) == (TraceView {
            position: trace.position + events.len(),
            ..trace
        }),
    decreases events.len(),
{
    if events.len() > 0 {
        let earlier = events.drop_last();
        assert forall|i: int| 0 <= i < earlier.len() implies is_filler_event(
            #[trigger] earlier[i],
        ) by {
            assert(earlier[i] == events[i]);
        }
        lemma_filler(trace, earlier, filter);
        assert(is_filler_event(events[events.len() - 1]));
        let before = trace_events(trace, earlier, filter);
        assert(trace_event(before, events.last(), filter).parser =~= trace.parser);
    }
}

/// The state after a piece: the state after the text of the field, where
/// the piece holds one.
pub open spec fn after_piece(s: ParserView, piece: Piece, filter: MembershipFilter) -> ParserView {
    match piece {
        Piece::Field { tag, text } => ParserView {
            field: Tag::Other,
            ..after_text(ParserView { field: tag, ..s }, text, filter).0
        },
        _ => s,
    }
}

/// Whether the text of a piece is taken without a failure.
pub open spec fn piece_is_taken(s: ParserView, piece: Piece, filter: MembershipFilter) -> bool {
    match piece {
        Piece::Field { tag, text } => after_text(ParserView { field: tag, ..s }, text, filter).1
            is Ok,
        _ => true,
    }
}

/// The trace after a piece, inside an item.
proof fn lemma_piece(trace: TraceView, piece: Piece, filter: MembershipFilter)
    requires
        is_running(trace),
        trace.parser.context != Context::OutsideItem,
        trace.parser.field == Tag::Other,
        piece_is_well_formed(piece),
        piece_is_taken(trace.parser, piece, filter),
    ensures
        trace_events(trace, piece_events(piece), filter) == (TraceView {
            parser: after_piece(trace.parser, piece, filter),
            position: trace.position + piece_events(piece).len(),
            ..trace
        }),
{
    match piece {
        Piece::Field { tag, text } => {
            let opened = trace_event(trace, EventView::Start(tag), filter);
            let read = trace_event(opened, EventView::Text(Some(text)), filter);
            let closed = trace_event(read, EventView::End(tag), filter);
            assert(field_events(tag, text) =~= seq![EventView::Start(tag)] + seq![
                EventView::Text(Some(text)),
            ] + seq![EventView::End(tag)]);
            lemma_trace_concat(
                trace,
                seq![EventView::Start(tag)] + seq![EventView::Text(Some(text))],
                seq![EventView::End(tag)],
                filter,
            );
            lemma_trace_concat(
                trace,
                seq![EventView::Start(tag)],
                seq![EventView::Text(Some(text))],
                filter,
            );
            lemma_trace_one(trace, EventView::Start(tag), filter);
            lemma_trace_one(opened, EventView::Text(Some(text)), filter);
            lemma_trace_one(read, EventView::End(tag), filter);
            assert(opened.parser == (ParserView { field: tag, ..trace.parser }));
            assert(after_event(opened.parser, EventView::Text(Some(text)), filter) == after_text(
                opened.parser,
                text,
                filter,
            ));
        },
        Piece::Empty { tag } => {
            let opened = trace_event(trace, EventView::Start(tag), filter);
            assert(piece_events(piece) =~= seq![EventView::Start(tag)] + seq![EventView::End(tag)]);
            lemma_trace_concat(
                trace,
                seq![EventView::Start(tag)],
                seq![EventView::End(tag)],
                filter,
            );
            lemma_trace_one(trace, EventView::Start(tag), filter);
            lemma_trace_one(opened, EventView::End(tag), filter);
            assert(trace_event(opened, EventView::End(tag), filter).parser =~= trace.parser);
        },
        Piece::Filler(events) => {
            lemma_filler(trace, events, filter);
        },
    }
}

/// The trace after the pieces of a contributor: only the name is taken.
proof fn lemma_contributor_pieces(trace: TraceView, pieces: Seq<Piece>, filter: MembershipFilter)
    requires
        is_running(trace),
        trace.parser.context == Context::InRevisionContributor,
        trace.parser.field == Tag::Other,
        pieces_are_well_formed(pieces),
    ensures
        trace_events(trace, pieces_events(pieces), filter) == (TraceView {
            parser: ParserView {
                revision: OpenRevision {
                    username: match last_text(pieces, Tag::Username) {
                        Some(name) => name,
                        None => trace.parser.revision.username,
                    },
                    ..trace.parser.revision
                },
                ..trace.parser
            },
            position: trace.position + pieces_events(pieces).len(),
            ..trace
        }),
    decreases pieces.len(),
{
    if pieces.len() == 0 {
        assert(trace.parser =~= ParserView {
            revision: OpenRevision {
                username: trace.parser.revision.username,
                ..trace.parser.revision
            },
            ..trace.parser
        });
    } else {
        let earlier = pieces.drop_last();
        let piece = pieces.last();
        assert forall|i: int| 0 <= i < earlier.len() implies piece_is_well_formed(
            #[trigger] earlier[i],
        ) by {
            assert(earlier[i] == pieces[i]);
        }
        assert(piece_is_well_formed(pieces[pieces.len() - 1]));
        lemma_contributor_pieces(trace, earlier, filter);
        let before = trace_events(trace, pieces_events(earlier), filter);
        lemma_piece(before, piece, filter);
        lemma_trace_concat(trace, pieces_events(earlier), piece_events(piece), filter);
        let after = trace_events(before, piece_events(piece), filter);
        assert(after.parser =~= ParserView {
            revision: OpenRevision {
                username: match last_text(pieces, Tag::Username) {
                    Some(name) => name,
                    None => trace.parser.revision.username,
                },
                ..trace.parser.revision
            },
            ..trace.parser
        });
    }
}

/// The state of an open revision that has read the given parts. The payload
/// is read unless the item is known to be rejected.
pub open spec fn revision_state(base: ParserView, parts: Seq<RevisionPart>) -> ParserView {
    ParserView {
        context: Context::InRevision,
        field: Tag::Other,
        revision: revision_fields(parts),
        format_valid: has_expected_format(parts),
        payload: if base.membership != Membership::Rejected {
            payload_of(parts)
        } else {
            Seq::empty()
        },
        ..base
    }
}

/// What a piece that stands in a revision does to the state of the
/// revision.
proof fn lemma_revision_piece(
    base: ParserView,
    seen: Seq<RevisionPart>,
    piece: Piece,
    filter: MembershipFilter,
)
    requires
        piece_is_well_formed(piece),
        gives_number(piece, Tag::Id),
        gives_number(piece, Tag::ParentId),
    ensures
        piece_is_taken(revision_state(base, seen), piece, filter),
        after_piece(revision_state(base, seen), piece, filter) == revision_state(
            base,
            seen.push(RevisionPart::Piece(piece)),
        ),
{
    let own = own_pieces(seen);
    let all = all_pieces(seen);
    let part = RevisionPart::Piece(piece);
    let s = revision_state(base, seen);
    let target = revision_state(base, seen.push(part));
    assert(seen.push(part).drop_last() =~= seen);
    assert(seen.push(part).last() == part);
    assert(own_pieces(seen.push(part)) == own.push(piece));
    assert(all_pieces(seen.push(part)) == all.push(piece));
    lemma_texts_push(own, piece, Tag::Id);
    lemma_texts_push(own, piece, Tag::ParentId);
    lemma_texts_push(own, piece, Tag::Timestamp);
    lemma_texts_push(own, piece, Tag::Comment);
    lemma_texts_push(own, piece, Tag::Format);
    lemma_texts_push(own, piece, Tag::Text);
    lemma_texts_push(all, piece, Tag::Username);
    let after = after_piece(s, piece, filter);
    assert(payload_of(seen) + Seq::<char>::empty() =~= payload_of(seen));
    assert(after.revision.id == target.revision.id);
    assert(after.revision.parent_id == target.revision.parent_id);
    assert(after.revision.timestamp == target.revision.timestamp);
    assert(after.revision.username == target.revision.username);
    assert(after.revision.comment == target.revision.comment);
    assert(after.revision =~= target.revision);
    assert(after.format_valid == target.format_valid);
    assert(after.payload =~= target.payload);
    assert(after =~= target);
}

/// The trace after one more part of a revision.
#[verifier::rlimit(40)]
proof fn lemma_revision_part(
    trace: TraceView,
    base: ParserView,
    seen: Seq<RevisionPart>,
    part: RevisionPart,
    filter: MembershipFilter,
)
    requires
        is_running(trace),
        trace.parser == revision_state(base, seen),
        revision_part_is_well_formed(part),
    ensures
        trace_events(trace, revision_part_events(part), filter) == (TraceView {
            parser: revision_state(base, seen.push(part)),
            position: trace.position + revision_part_events(part).len(),
            ..trace
        }),
{
    match part {
        RevisionPart::Piece(piece) => {
            lemma_revision_piece(base, seen, piece, filter);
            lemma_piece(trace, piece, filter);
        },
        RevisionPart::Contributor(pieces) => {
            let all = all_pieces(seen);
            assert(seen.push(part).drop_last() =~= seen);
            assert(seen.push(part).last() == part);
            assert(own_pieces(seen.push(part)) == own_pieces(seen));
            assert(all_pieces(seen.push(part)) == all + pieces);
            let start = seq![EventView::Start(Tag::Contributor)];
            let inside = pieces_events(pieces);
            let end = seq![EventView::End(Tag::Contributor)];
            lemma_last_text_concat(all, pieces, Tag::Username);
            let t1 = trace_events(trace, start, filter);
            lemma_trace_one(trace, EventView::Start(Tag::Contributor), filter);
            let t2 = trace_events(t1, inside, filter);
            lemma_contributor_pieces(t1, pieces, filter);
            let t3 = trace_events(t2, end, filter);
            lemma_trace_one(t2, EventView::End(Tag::Contributor), filter);
            lemma_trace_concat(trace, start + inside, end, filter);
            lemma_trace_concat(trace, start, inside, filter);
            assert(t3.parser.revision =~= revision_state(base, seen.push(part)).revision);
            assert(t3.parser =~= revision_state(base, seen.push(part)));
        },
    }
}

/// The trace after the parts of a revision.
proof fn lemma_revision_parts(
    trace: TraceView,
    base: ParserView,
    parts: Seq<RevisionPart>,
    filter: MembershipFilter,
)
    requires
        is_running(trace),
        trace.parser == revision_state(base, Seq::empty()),
        revision_is_well_formed(parts),
    ensures
        trace_events(trace, revision_parts_events(parts), filter) == (TraceView {
            parser: revision_state(base, parts),
            position: trace.position + revision_parts_events(parts).len(),
            ..trace
        }),
    decreases parts.len(),
{
    if parts.len() > 0 {
        let earlier = parts.drop_last();
        assert forall|i: int| 0 <= i < earlier.len() implies revision_part_is_well_formed(
            #[trigger] earlier[i],
        ) by {
            assert(earlier[i] == parts[i]);
        }
        assert(revision_part_is_well_formed(parts[parts.len() - 1]));
        lemma_revision_parts(trace, base, earlier, filter);
        let before = trace_events(trace, revision_parts_events(earlier), filter);
        lemma_revision_part(before, base, earlier, parts.last(), filter);
        lemma_trace_concat(
            trace,
            revision_parts_events(earlier),
            revision_part_events(parts.last()),
            filter,
        );
        assert(earlier.push(parts.last()) =~= parts);
    }
}

/// `rejected` with the payload that a closing revision rejected, if it did.
pub open spec fn with_rejected(rejected: Seq<RejectedView>, outcome: OutcomeView) -> Seq<RejectedView> {
    match outcome {
        OutcomeView::PayloadRejected { entity_id, revision_id } => rejected.push(
            RejectedView { entity_id, revision_id },
        ),
        _ => rejected,
    }
}

/// The trace after a whole revision: the revision closes from the state
/// that holds its fields.
proof fn lemma_revision(trace: TraceView, parts: Seq<RevisionPart>, filter: MembershipFilter)
    requires
        is_running(trace),
        trace.parser.context == Context::InItem,
        revision_is_well_formed(parts),
    ensures
        ({
            let ready = revision_state(trace.parser, parts);
            trace_events(trace, revision_events(parts), filter) == (TraceView {
                parser: after_revision(ready).0,
                rejected: with_rejected(trace.rejected, after_revision(ready).1),
                position: trace.position + revision_events(parts).len(),
                ..trace
            })
        }),
{
    let start = seq![EventView::Start(Tag::Revision)];
    let inside = revision_parts_events(parts);
    let end = seq![EventView::End(Tag::Revision)];
    let t1 = trace_events(trace, start, filter);
    lemma_trace_one(trace, EventView::Start(Tag::Revision), filter);
    assert(t1.parser =~= revision_state(trace.parser, Seq::empty()));
    let t2 = trace_events(t1, inside, filter);
    lemma_revision_parts(t1, trace.parser, parts, filter);
    lemma_trace_one(t2, EventView::End(Tag::Revision), filter);
    lemma_trace_concat(trace, start + inside, end, filter);
    lemma_trace_concat(trace, start, inside, filter);
}

/// The state inside a page that has read the given parts.
pub open spec fn page_state(
    parts: Seq<PagePart>,
    filter: MembershipFilter,
    policy: FormatPolicy,
) -> ParserView {
    ParserView {
        context: Context::InItem,
        membership: membership_of(title_of(parts), filter),
        item_id: number_of(last_text(page_pieces(parts), Tag::Id)),
        entity_id: text_of(title_of(parts)),
        revisions: gathered(parts, filter, policy).revisions,
        previous: gathered(parts, filter, policy).previous,
        ..idle(policy)
    }
}

/// The trace after one more part of a page.
proof fn lemma_page_part(
    trace: TraceView,
    base: Seq<RejectedView>,
    seen: Seq<PagePart>,
    part: PagePart,
    filter: MembershipFilter,
    policy: FormatPolicy,
)
    requires
        is_running(trace),
        trace.parser == page_state(seen, filter, policy),
        trace.rejected == base + gathered(seen, filter, policy).rejected,
        page_part_is_well_formed(part),
    ensures
        trace_events(trace, page_part_events(part), filter) == (TraceView {
            parser: page_state(seen.push(part), filter, policy),
            rejected: base + gathered(seen.push(part), filter, policy).rejected,
            position: trace.position + page_part_events(part).len(),
            ..trace
        }),
{
    let own = page_pieces(seen);
    assert(seen.push(part).drop_last() =~= seen);
    assert(seen.push(part).last() == part);
    match part {
        PagePart::Piece(piece) => {
            lemma_texts_push(own, piece, Tag::Id);
            lemma_texts_push(own, piece, Tag::Title);
            lemma_piece(trace, piece, filter);
            let after = trace_events(trace, piece_events(piece), filter);
            assert(after.parser =~= page_state(seen.push(part), filter, policy));
        },
        PagePart::Revision(revision) => {
            lemma_revision(trace, revision, filter);
            let after = trace_events(trace, revision_events(revision), filter);
            assert(after.parser =~= page_state(seen.push(part), filter, policy));
            assert(after.rejected =~= base + gathered(seen.push(part), filter, policy).rejected);
        },
    }
}

/// The trace after the parts of a page.
proof fn lemma_page_parts(
    trace: TraceView,
    parts: Seq<PagePart>,
    filter: MembershipFilter,
    policy: FormatPolicy,
)
    requires
        is_running(trace),
        trace.parser == page_state(Seq::empty(), filter, policy),
        page_is_well_formed(parts),
    ensures
        trace_events(trace, page_parts_events(parts), filter) == (TraceView {
            parser: page_state(parts, filter, policy),
            rejected: trace.rejected + gathered(parts, filter, policy).rejected,
            position: trace.position + page_parts_events(parts).len(),
            ..trace
        }),
    decreases parts.len(),
{
    if parts.len() == 0 {
        assert(trace.rejected + gathered(parts, filter, policy).rejected =~= trace.rejected);
    } else {
        let earlier = parts.drop_last();
        assert forall|i: int| 0 <= i < earlier.len() implies page_part_is_well_formed(
            #[trigger] earlier[i],
        ) by {
            assert(earlier[i] == parts[i]);
        }
        assert(page_part_is_well_formed(parts[parts.len() - 1]));
        lemma_page_parts(trace, earlier, filter, policy);
        let before = trace_events(trace, page_parts_events(earlier), filter);
        lemma_page_part(before, trace.rejected, earlier, parts.last(), filter, policy);
        lemma_trace_concat(
            trace,
            page_parts_events(earlier),
            page_part_events(parts.last()),
            filter,
        );
        assert(earlier.push(parts.last()) =~= parts);
    }
}

/// The trace after a whole page, read between items: the page's item is
/// completed where the page qualifies, and the parser stands between items
/// again.
proof fn lemma_page(
    trace: TraceView,
    parts: Seq<PagePart>,
    filter: MembershipFilter,
    policy: FormatPolicy,
)
    requires
        is_running(trace),
        trace.parser == idle(policy),
        page_is_well_formed(parts),
    ensures
        trace_events(trace, page_events(parts), filter) == (TraceView {
            parser: idle(policy),
            items: if page_qualifies(parts, filter, policy) {
                trace.items.push(item_of(parts, filter, policy))
            } else {
                trace.items
            },
            rejected: trace.rejected + gathered(parts, filter, policy).rejected,
            position: trace.position + page_events(parts).len(),
            ..trace
        }),
{
    let start = seq![EventView::Start(Tag::Page)];
    let inside = page_parts_events(parts);
    let end = seq![EventView::End(Tag::Page)];
    let t1 = trace_events(trace, start, filter);
    lemma_trace_one(trace, EventView::Start(Tag::Page), filter);
    assert(t1.parser =~= page_state(Seq::empty(), filter, policy));
    let t2 = trace_events(t1, inside, filter);
    lemma_page_parts(t1, parts, filter, policy);
    lemma_trace_one(t2, EventView::End(Tag::Page), filter);
    lemma_trace_concat(trace, start + inside, end, filter);
    lemma_trace_concat(trace, start, inside, filter);
}

/// The trace after the parts of a dump.
proof fn lemma_dump(
    parts: Seq<DumpPart>,
    filter: MembershipFilter,
    policy: FormatPolicy,
)
    requires
        dump_is_well_formed(parts),
    ensures
        trace_events(start_trace(policy), dump_events(parts), filter) == (TraceView {
            items: items_of(parts, filter, policy),
            rejected: rejected_of(parts, filter, policy),
            position: dump_events(parts).len(),
            ..start_trace(policy)
        }),
    decreases parts.len(),
{
    let start = start_trace(policy);
    if parts.len() > 0 {
        let earlier = parts.drop_last();
        assert forall|i: int| 0 <= i < earlier.len() implies dump_part_is_well_formed(
            #[trigger] earlier[i],
        ) by {
            assert(earlier[i] == parts[i]);
        }
        assert(dump_part_is_well_formed(parts[parts.len() - 1]));
        lemma_dump(earlier, filter, policy);
        let before = trace_events(start, dump_events(earlier), filter);
        lemma_trace_concat(start, dump_events(earlier), dump_part_events(parts.last()), filter);
        match parts.last() {
            DumpPart::Filler(events) => {
                lemma_filler(before, events, filter);
            },
            DumpPart::Page(page) => {
                lemma_page(before, page, filter, policy);
            },
        }
    }
}

/// Well-formed dumps. The parser makes of the events of a well-formed dump
/// exactly the items of the dump: one item for every page that the filter
/// accepts and that has a valid revision, in the order of the pages, each
/// with the revisions of its page in their order and with its last valid
/// payload. It rejects exactly the payloads of the expected format that do
/// not parse, does not fail, and ends between items.
pub proof fn law_well_formed_dump(
    parts: Seq<DumpPart>,
    filter: MembershipFilter,
    policy: FormatPolicy,
)
    requires
        dump_is_well_formed(parts),
    ensures
        trace_source(dump_events(parts), filter, policy) == (TraceView {
            parser: idle(policy),
            items: items_of(parts, filter, policy),
            rejected: rejected_of(parts, filter, policy),
            position: dump_events(parts).len() + 1,
            finished: true,
            failure: None,
        }),
{
    lemma_dump(parts, filter, policy);
}

/// The history of an item whose revisions all count: its revisions and its
/// last valid payload after the given revisions.
pub open spec fn history(revisions: Seq<Seq<RevisionPart>>, policy: FormatPolicy) -> (
    Seq<RevisionView>,
    Option<serde_json::Value>,
)
    decreases revisions.len(),
{
    if revisions.len() == 0 {
        (Seq::empty(), None)
    } else {
        let (earlier, previous) = history(revisions.drop_last(), policy);
        let after = with_revision(
            Gathered { revisions: earlier, previous, rejected: Seq::empty() },
            revisions.last(),
            Seq::empty(),
            policy,
        );
        (after.revisions, after.previous)
    }
}

/// Whether a page has a valid revision.
pub open spec fn has_valid_revision(parts: Seq<PagePart>) -> bool {
    exists|i: int|
        0 <= i < page_revisions(parts).len() && is_valid_revision(
            #[trigger] page_revisions(parts)[i],
        )
}

/// The number of pages that the filter accepts and that have a valid
/// revision.
pub open spec fn qualifying_pages(parts: Seq<DumpPart>, filter: MembershipFilter) -> nat
    decreases parts.len(),
{
    if parts.len() == 0 {
        0
    } else {
        let earlier = qualifying_pages(parts.drop_last(), filter);
        match parts.last() {
            DumpPart::Page(page) => if page_is_accepted(page, filter) && has_valid_revision(page) {
                earlier + 1
            } else {
                earlier
            },
            DumpPart::Filler(_) => earlier,
        }
    }
}

/// The revisions that stay in the history of an item, in their order: all of
/// them, or only those of the expected format, as the policy says.
pub open spec fn kept_revisions(revisions: Seq<Seq<RevisionPart>>, policy: FormatPolicy) -> Seq<
    Seq<RevisionPart>,
>
    decreases revisions.len(),
{
    if revisions.len() == 0 {
        Seq::empty()
    } else if policy == FormatPolicy::Retain || has_expected_format(revisions.last()) {
        kept_revisions(revisions.drop_last(), policy).push(revisions.last())
    } else {
        kept_revisions(revisions.drop_last(), policy)
    }
}

/// A title that a page has after some of its parts is its title.
proof fn lemma_title_stays(parts: Seq<PagePart>)
    requires
        parts.len() > 0,
        title_of(parts.drop_last()) is Some,
    ensures
        title_of(parts) == title_of(parts.drop_last()),
{
    match parts.last() {
        PagePart::Piece(piece) => {
            lemma_texts_push(page_pieces(parts.drop_last()), piece, Tag::Title);
        },
        PagePart::Revision(_) => {},
    }
}

/// All the revisions of a page count where none of its titles was rejected:
/// the page has gathered the history of its revisions.
pub proof fn lemma_gathered_history(
    parts: Seq<PagePart>,
    filter: MembershipFilter,
    policy: FormatPolicy,
)
    requires
        membership_of(title_of(parts), filter) != Membership::Rejected,
    ensures
        gathered(parts, filter, policy).revisions == history(page_revisions(parts), policy).0,
        gathered(parts, filter, policy).previous == history(page_revisions(parts), policy).1,
    decreases parts.len(),
{
    if parts.len() > 0 {
        let earlier = parts.drop_last();
        if title_of(earlier) is Some {
            lemma_title_stays(parts);
        }
        lemma_gathered_history(earlier, filter, policy);
        match parts.last() {
            PagePart::Revision(revision) => {
                assert(page_revisions(parts).drop_last() =~= page_revisions(earlier));
                assert(page_revisions(parts).last() == revision);
            },
            PagePart::Piece(_) => {},
        }
    }
}

/// An item has a last valid payload exactly where one of its revisions is
/// valid.
pub proof fn lemma_payload_needs_valid_revision(
    revisions: Seq<Seq<RevisionPart>>,
    policy: FormatPolicy,
)
    ensures
        history(revisions, policy).1 is Some <==> exists|i: int|
            0 <= i < revisions.len() && is_valid_revision(#[trigger] revisions[i]),
    decreases revisions.len(),
{
    if revisions.len() > 0 {
        let earlier = revisions.drop_last();
        lemma_payload_needs_valid_revision(earlier, policy);
        if history(revisions, policy).1 is Some {
            if is_valid_revision(revisions.last()) {
                assert(is_valid_revision(revisions[revisions.len() - 1]));
            } else {
                let i = choose|i: int| 0 <= i < earlier.len() && is_valid_revision(#[trigger] earlier[i]);
                assert(is_valid_revision(revisions[i]));
            }
        }
        if exists|i: int| 0 <= i < revisions.len() && is_valid_revision(#[trigger] revisions[i]) {
            let i = choose|i: int| 0 <= i < revisions.len() && is_valid_revision(#[trigger] revisions[i]);
            if i < earlier.len() {
                assert(is_valid_revision(earlier[i]));
            }
        }
    }
}

proof fn lemma_item_count(parts: Seq<DumpPart>, filter: MembershipFilter, policy: FormatPolicy)
    ensures
        items_of(parts, filter, policy).len() == qualifying_pages(parts, filter),
    decreases parts.len(),
{
    if parts.len() > 0 {
        lemma_item_count(parts.drop_last(), filter, policy);
        match parts.last() {
            DumpPart::Page(page) => {
                if page_is_accepted(page, filter) {
                    lemma_gathered_history(page, filter, policy);
                    lemma_payload_needs_valid_revision(page_revisions(page), policy);
                }
            },
            DumpPart::Filler(_) => {},
        }
    }
}

/// Item count. Processing a well-formed dump completes as many items as the
/// dump has pages whose title the filter accepts and which hold at least one
/// valid revision: one that declares the expected format and whose payload
/// parses. Where in the page the title stands, and where in the revision the
/// format and the payload stand, makes no difference.
pub proof fn law_item_count(parts: Seq<DumpPart>, filter: MembershipFilter, policy: FormatPolicy)
    requires
        dump_is_well_formed(parts),
    ensures
        trace_source(dump_events(parts), filter, policy).items.len() == qualifying_pages(
            parts,
            filter,
        ),
{
    law_well_formed_dump(parts, filter, policy);
    lemma_item_count(parts, filter, policy);
}

/// The history of an item. The item of a page that the filter accepts holds
/// the history of all the revisions of the page, and the last valid payload
/// among them.
pub proof fn law_item_history(parts: Seq<PagePart>, filter: MembershipFilter, policy: FormatPolicy)
    requires
        page_is_accepted(parts, filter),
    ensures
        item_of(parts, filter, policy).revisions == history(page_revisions(parts), policy).0,
        history(page_revisions(parts), policy).1 is Some ==> item_of(
            parts,
            filter,
            policy,
        ).entity_json == history(page_revisions(parts), policy).1->0,
{
    lemma_gathered_history(parts, filter, policy);
}

/// Revision order. The history of an item holds the revisions that the
/// policy keeps, in the order of the page: the revision at each place has the
/// fields of the kept revision at the same place. A revision that does not
/// declare the expected format has no patch.
pub proof fn law_revision_order(revisions: Seq<Seq<RevisionPart>>, policy: FormatPolicy)
    ensures
        history(revisions, policy).0.len() == kept_revisions(revisions, policy).len(),
        forall|i: int|
            0 <= i < kept_revisions(revisions, policy).len() ==> (#[trigger] history(
                revisions,
                policy,
            ).0[i]) == revision_of(
                kept_revisions(revisions, policy)[i],
                history(revisions, policy).0[i].entity_diff,
            ),
        forall|i: int|
            0 <= i < kept_revisions(revisions, policy).len() && !has_expected_format(
                kept_revisions(revisions, policy)[i],
            ) ==> (#[trigger] history(revisions, policy).0[i]).entity_diff is None,
        policy == FormatPolicy::Retain ==> kept_revisions(revisions, policy) == revisions,
    decreases revisions.len(),
{
    if revisions.len() > 0 {
        law_revision_order(revisions.drop_last(), policy);
        if policy == FormatPolicy::Retain {
            assert(kept_revisions(revisions, policy) =~= revisions);
        }
    } else {
        assert(kept_revisions(revisions, policy) =~= revisions);
    }
}

} // verus!
