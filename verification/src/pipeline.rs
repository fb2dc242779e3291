//! Processing the events of one source from its first token to its last:
//! the parser reconstructs the items, the batch writer groups them.

use vstd::prelude::*;
use crate::batch::{
    after_accepts, after_finish, fresh_writer, full_batch, law_batches_by_threshold, BatchWriter,
    OutputUnit, UnitView,
};
use crate::filter::MembershipFilter;
use crate::markup::{event_views, EventView, XmlEvent};
use crate::model::ItemView;
use crate::parser::{
    after_event, idle, Context, DumpParser, FormatPolicy, Membership, Outcome, OutcomeView,
    ParserView, StreamError,
};

verus! {

/// A revision whose payload did not parse. It stays in its item without a
/// patch; the record allows to process it again by hand.
#[derive(Debug)]
pub struct RejectedPayload {
    pub entity_id: String,
    pub revision_id: u64,
}

/// A rejected payload, in spec terms.
pub struct RejectedView {
    pub entity_id: Seq<char>,
    pub revision_id: u64,
}

impl View for RejectedPayload {
    type V = RejectedView;

    open spec fn view(&self) -> RejectedView {
        RejectedView { entity_id: self.entity_id@, revision_id: self.revision_id }
    }
}

/// The fatal error of a stream and the offset of the token that raised it.
/// The end of the events counts as a token of its own.
#[derive(Debug, Clone, Copy, PartialEq, Eq, Structural)]
pub struct Failure {
    pub position: usize,
    pub error: StreamError,
}

/// What the processing of one source produced.
#[derive(Debug)]
pub struct Report {
    /// The batches in the order in which they were flushed.
    pub units: Vec<OutputUnit>,
    /// The payloads that did not parse, in the order of the stream.
    pub rejected: Vec<RejectedPayload>,
    /// Why the source was abandoned, if it was. The batches flushed before
    /// stay; what was buffered is lost.
    pub failure: Option<Failure>,
}

/// A failure, in spec terms.
pub struct FailureView {
    pub position: nat,
    pub error: StreamError,
}

impl View for Failure {
    type V = FailureView;

    open spec fn view(&self) -> FailureView {
        FailureView { position: self.position as nat, error: self.error }
    }
}

/// A report, in spec terms.
#[verifier::ext_equal]
pub struct ReportView {
    pub units: Seq<UnitView>,
    pub rejected: Seq<RejectedView>,
    pub failure: Option<FailureView>,
}

/// The views of output units, in order.
pub open spec fn unit_views(units: Seq<OutputUnit>) -> Seq<UnitView> {
    units.map_values(|unit: OutputUnit| unit@)
}

/// The views of rejected payloads, in order.
pub open spec fn rejected_views(rejected: Seq<RejectedPayload>) -> Seq<RejectedView> {
    rejected.map_values(|payload: RejectedPayload| payload@)
}

impl View for Report {
    type V = ReportView;

    open spec fn view(&self) -> ReportView {
        ReportView {
            units: unit_views(self.units@),
            rejected: rejected_views(self.rejected@),
            failure: match self.failure {
                Some(failure) => Some(failure@),
                None => None,
            },
        }
    }
}

/// What the parser has made of the events of a source so far.
#[verifier::ext_equal]
pub struct TraceView {
    pub parser: ParserView,
    /// The items that were completed, in the order of the stream.
    pub items: Seq<ItemView>,
    /// The payloads that did not parse, in the order of the stream.
    pub rejected: Seq<RejectedView>,
    /// How many events were taken.
    pub position: nat,
    /// Whether the end of the stream was reached.
    pub finished: bool,
    pub failure: Option<FailureView>,
}

/// The trace before the first event.
pub open spec fn start_trace(policy: FormatPolicy) -> TraceView {
    TraceView {
        parser: idle(policy),
        items: Seq::empty(),
        rejected: Seq::empty(),
        position: 0,
        finished: false,
        failure: None,
    }
}

/// Whether further events are taken.
pub open spec fn is_running(trace: TraceView) -> bool {
    !trace.finished && trace.failure is None
}

/// The trace after one more event. Once the stream has ended or failed, no
/// event is taken.
pub open spec fn trace_event(trace: TraceView, event: EventView, filter: MembershipFilter) -> TraceView {
    if !is_running(trace) {
        trace
    } else {
        let (parser, result) = after_event(trace.parser, event, filter);
        match result {
            Err(error) => TraceView {
                failure: Some(FailureView { position: trace.position, error }),
                ..trace
            },
            Ok(OutcomeView::Continue) => TraceView {
                parser,
                position: trace.position + 1,
                ..trace
            },
            Ok(OutcomeView::Item(item)) => TraceView {
                parser,
                items: trace.items.push(item),
                position: trace.position + 1,
                ..trace
            },
            Ok(OutcomeView::PayloadRejected { entity_id, revision_id }) => TraceView {
                parser,
                rejected: trace.rejected.push(RejectedView { entity_id, revision_id }),
                position: trace.position + 1,
                ..trace
            },
            Ok(OutcomeView::Finished) => TraceView {
                parser,
                position: trace.position + 1,
                finished: true,
                ..trace
            },
        }
    }
}

/// The trace after a sequence of events.
pub open spec fn trace_events(trace: TraceView, events: Seq<EventView>, filter: MembershipFilter) -> TraceView
    decreases events.len(),
{
    if events.len() == 0 {
        trace
    } else {
        trace_event(trace_events(trace, events.drop_last(), filter), events.last(), filter)
    }
}

/// The trace of a whole source: the end of the events ends the stream where
/// no event did.
pub open spec fn trace_source(
    events: Seq<EventView>,
    filter: MembershipFilter,
    policy: FormatPolicy,
) -> TraceView {
    trace_event(trace_events(start_trace(policy), events, filter), EventView::Eof, filter)
}

/// The batches that a writer hands out for `items`: those that the items
/// flush one by one, and, where the stream ended, the one for what is left.
pub open spec fn batches(
    source_name: Seq<char>,
    bulk_size: nat,
    items: Seq<ItemView>,
    finished: bool,
) -> Seq<UnitView> {
    let (writer, units) = after_accepts(fresh_writer(source_name, bulk_size), items);
    match after_finish(writer).1 {
        Some(unit) => if finished {
            units.push(unit)
        } else {
            units
        },
        None => units,
    }
}

/// The report on a whole source: the items that the parser completes, in
/// batches; the payloads that it rejects; and its failure, if it fails. After
/// a failure the batches that were flushed before stay.
pub open spec fn report_of(
    events: Seq<EventView>,
    source_name: Seq<char>,
    filter: MembershipFilter,
    policy: FormatPolicy,
    bulk_size: nat,
) -> ReportView {
    let trace = trace_source(events, filter, policy);
    ReportView {
        units: batches(source_name, bulk_size, trace.items, trace.finished),
        rejected: trace.rejected,
        failure: trace.failure,
    }
}

/// Whether the parser stands inside an item, as a number.
pub open spec fn open_items(parser: ParserView) -> nat {
    if parser.context == Context::OutsideItem {
        0
    } else {
        1
    }
}

/// A trace that has ended or failed is not changed by further events.
pub proof fn lemma_stopped_trace_stays(
    trace: TraceView,
    events: Seq<EventView>,
    filter: MembershipFilter,
)
    requires
        !is_running(trace),
    ensures
        trace_events(trace, events, filter) == trace,
    decreases events.len(),
{
    if events.len() > 0 {
        lemma_stopped_trace_stays(trace, events.drop_last(), filter);
    }
}

/// Tracing two sequences of events one after the other is tracing their
/// concatenation.
pub proof fn lemma_trace_concat(
    trace: TraceView,
    first: Seq<EventView>,
    second: Seq<EventView>,
    filter: MembershipFilter,
)
    ensures
        trace_events(trace, first + second, filter) == trace_events(
            trace_events(trace, first, filter),
            second,
            filter,
        ),
    decreases second.len(),
{
    if second.len() == 0 {
        assert(first + second =~= first);
    } else {
        lemma_trace_concat(trace, first, second.drop_last(), filter);
        assert((first + second).drop_last() =~= first + second.drop_last());
        assert((first + second).last() == second.last());
    }
}

/// Tracing a single event.
pub proof fn lemma_trace_one(trace: TraceView, event: EventView, filter: MembershipFilter)
    ensures
        trace_events(trace, seq![event], filter) == trace_event(trace, event, filter),
{
    assert(seq![event].drop_last() =~= Seq::<EventView>::empty());
    assert(seq![event].last() == event);
    assert(trace_events(trace, seq![event].drop_last(), filter) == trace);
}

/// Processes the events of one source: every completed item goes to the batch
/// writer, every flushed batch into the report. The first fatal error ends the
/// processing.
#[verifier::rlimit(60)]
pub fn process_events(
    events: &Vec<XmlEvent>,
    source_name: String,
    filter: &MembershipFilter,
    policy: FormatPolicy,
    bulk_size: usize,
) -> (report: Report)
    ensures
        report@ == report_of(event_views(events@), source_name@, *filter, policy, bulk_size as nat),
{
    let mut parser = DumpParser::new(policy);
    let mut writer = BatchWriter::new(source_name, bulk_size);
    let mut report = Report { units: Vec::new(), rejected: Vec::new(), failure: None };
    let mut finished = false;
    let ghost views = event_views(events@);
    let ghost start = start_trace(policy);
    let ghost fresh = fresh_writer(source_name@, bulk_size as nat);
    let ghost mut items: Seq<ItemView> = Seq::empty();
    assert(unit_views(report.units@) =~= Seq::<UnitView>::empty());
    assert(rejected_views(report.rejected@) =~= Seq::<RejectedView>::empty());
    assert(views.take(0) =~= Seq::<EventView>::empty());
    let mut i: usize = 0;
    while i < events.len() && !finished && report.failure.is_none()
        invariant
            i <= events.len(),
            views == event_views(events@),
            start == start_trace(policy),
            fresh == fresh_writer(source_name@, bulk_size as nat),
            trace_events(start, views.take(i as int), *filter) == (TraceView {
                parser: parser@,
                items,
                rejected: rejected_views(report.rejected@),
                position: if report.failure is Some {
                    (i - 1) as nat
                } else {
                    i as nat
                },
                finished,
                failure: report@.failure,
            }),
            report.failure is Some ==> i > 0,
            !finished ==> after_accepts(fresh, items) == (writer@, unit_views(report.units@)),
            finished ==> unit_views(report.units@) == batches(
                source_name@,
                bulk_size as nat,
                items,
                true,
            ),
            !finished ==> 2 * writer@.flushes + open_items(parser@) <= i,
        decreases events.len() - i,
    {
        proof {
            assert(views.take(i + 1).drop_last() =~= views.take(i as int));
            assert(views.take(i + 1).last() == events@[i as int]@);
        }
        match parser.step(&events[i], filter) {
            Err(error) => {
                report.failure = Some(Failure { position: i, error });
            },
            Ok(Outcome::Continue) => {},
            Ok(Outcome::Item(item)) => {
                proof {
                    assert(items.push(item@).drop_last() =~= items);
                    items = items.push(item@);
                }
                match writer.accept(item) {
                    Some(unit) => {
                        assert(unit_views(report.units@.push(unit)) =~= unit_views(
                            report.units@,
                        ).push(unit@));
                        report.units.push(unit);
                    },
                    None => {},
                }
            },
            Ok(Outcome::PayloadRejected { entity_id, revision_id }) => {
                let payload = RejectedPayload { entity_id, revision_id };
                assert(rejected_views(report.rejected@.push(payload)) =~= rejected_views(
                    report.rejected@,
                ).push(payload@));
                report.rejected.push(payload);
            },
            Ok(Outcome::Finished) => {
                match writer.finish() {
                    Some(unit) => {
                        assert(unit_views(report.units@.push(unit)) =~= unit_views(
                            report.units@,
                        ).push(unit@));
                        report.units.push(unit);
                    },
                    None => {},
                }
                finished = true;
            },
        }
        i += 1;
    }
    let ghost seen = trace_events(start, views.take(i as int), *filter);
    proof {
        assert(views =~= views.take(i as int) + views.skip(i as int));
        lemma_trace_concat(start, views.take(i as int), views.skip(i as int), *filter);
        if i < events.len() {
            lemma_stopped_trace_stays(seen, views.skip(i as int), *filter);
        } else {
            assert(views.skip(i as int) =~= Seq::<EventView>::empty());
        }
        assert(trace_events(start, views, *filter) == seen);
    }
    if !finished && report.failure.is_none() {
        match parser.step(&XmlEvent::Eof, filter) {
            Err(error) => {
                report.failure = Some(Failure { position: i, error });
            },
            Ok(Outcome::Finished) => {
                match writer.finish() {
                    Some(unit) => {
                        assert(unit_views(report.units@.push(unit)) =~= unit_views(
                            report.units@,
                        ).push(unit@));
                        report.units.push(unit);
                    },
                    None => {},
                }
            },
            Ok(_) => {},
        }
    }
    report
}

/// Whether the filter accepts every one of the items.
pub open spec fn all_accepted(items: Seq<ItemView>, filter: MembershipFilter) -> bool {
    forall|i: int| 0 <= i < items.len() ==> filter.accepts((#[trigger] items[i]).entity_id)
}

/// Whether everything that a trace holds passed the filter.
pub open spec fn only_accepted(trace: TraceView, filter: MembershipFilter) -> bool {
    &&& trace.parser.membership == Membership::Accepted ==> filter.accepts(trace.parser.entity_id)
    &&& all_accepted(trace.items, filter)
}

proof fn lemma_events_keep_accepted(
    trace: TraceView,
    events: Seq<EventView>,
    filter: MembershipFilter,
)
    requires
        only_accepted(trace, filter),
    ensures
        only_accepted(trace_events(trace, events, filter), filter),
    decreases events.len(),
{
    if events.len() > 0 {
        lemma_events_keep_accepted(trace, events.drop_last(), filter);
    }
}

/// Membership. Whatever the events of a source are, every item that its
/// parser completes, and so every item of every batch in its report, has an
/// identifier that the filter accepts: an item that is absent from a
/// membership list reaches no batch.
pub proof fn law_only_members_are_emitted(
    events: Seq<EventView>,
    source_name: Seq<char>,
    filter: MembershipFilter,
    policy: FormatPolicy,
    bulk_size: nat,
)
    ensures
        all_accepted(trace_source(events, filter, policy).items, filter),
        forall|u: int|
            #![trigger report_of(events, source_name, filter, policy, bulk_size).units[u]]
            0 <= u < report_of(events, source_name, filter, policy, bulk_size).units.len()
                ==> all_accepted(
                report_of(events, source_name, filter, policy, bulk_size).units[u].items,
                filter,
            ),
{
    lemma_events_keep_accepted(start_trace(policy), events, filter);
    let trace = trace_source(events, filter, policy);
    let units = report_of(events, source_name, filter, policy, bulk_size).units;
    law_batches_by_threshold(source_name, bulk_size, trace.items);
    let full = bulk_size + 1;
    let count = trace.items.len() / full;
    let rest = trace.items.len() % full;
    let (writer, flushed) = after_accepts(fresh_writer(source_name, bulk_size), trace.items);
    assert forall|u: int| 0 <= u < units.len() implies all_accepted(
        (#[trigger] units[u]).items,
        filter,
    ) by {
        if u < count {
            assert(units[u] == flushed[u]);
            assert(flushed[u].items == full_batch(trace.items, u, full as int));
            assert(0 <= u * full && u * full + full <= count * full) by (nonlinear_arith)
                requires
                    0 <= u < count,
                    full > 0,
            ;
            vstd::arithmetic::div_mod::lemma_fundamental_div_mod(
                trace.items.len() as int,
                full as int,
            );
            assert(full * count == count * full) by (nonlinear_arith);
            assert forall|i: int| 0 <= i < units[u].items.len() implies filter.accepts(
                (#[trigger] units[u].items[i]).entity_id,
            ) by {
                assert(units[u].items[i] == trace.items[u * full + i]);
            }
        } else {
            assert(u == count);
            assert(units[u] == after_finish(writer).1->0);
            assert(units[u].items == trace.items.subrange(
                trace.items.len() - rest,
                trace.items.len() as int,
            ));
            vstd::arithmetic::div_mod::lemma_mod_bound(trace.items.len() as int, full as int);
            vstd::arithmetic::div_mod::lemma_fundamental_div_mod(
                trace.items.len() as int,
                full as int,
            );
            assert(0 <= full * count) by (nonlinear_arith)
                requires
                    0 <= count,
                    full > 0,
            ;
            assert forall|i: int| 0 <= i < units[u].items.len() implies filter.accepts(
                (#[trigger] units[u].items[i]).entity_id,
            ) by {
                assert(units[u].items[i] == trace.items[trace.items.len() - rest + i]);
            }
        }
    }
}

} // verus!
