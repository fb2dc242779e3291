use edit_history::filter::MembershipFilter;
use edit_history::markup::{classify_tag, Tag, XmlEvent};
use edit_history::parser::{Context, DumpParser, FormatPolicy, Outcome, StreamError};
use edit_history::pipeline::process_events;

fn start(name: &str) -> XmlEvent {
    XmlEvent::Start(name.as_bytes().to_vec())
}

fn end(name: &str) -> XmlEvent {
    XmlEvent::End(name.as_bytes().to_vec())
}

fn text(content: &str) -> XmlEvent {
    XmlEvent::Text(content.as_bytes().to_vec())
}

fn field(events: &mut Vec<XmlEvent>, name: &str, content: &str) {
    events.push(start(name));
    events.push(text(content));
    events.push(end(name));
}

fn revision(events: &mut Vec<XmlEvent>, id: &str, parent: &str, format: &str, payload: &str) {
    events.push(start("revision"));
    field(events, "id", id);
    field(events, "parentid", parent);
    field(events, "timestamp", "2020-01-01T00:00:00Z");
    events.push(start("contributor"));
    field(events, "username", "alice");
    field(events, "id", "999");
    events.push(end("contributor"));
    field(events, "comment", "edit");
    field(events, "format", format);
    field(events, "text", payload);
    events.push(end("revision"));
}

fn page(events: &mut Vec<XmlEvent>, title: &str, id: &str, revisions: &[(&str, &str, &str, &str)]) {
    events.push(start("page"));
    field(events, "title", title);
    field(events, "id", id);
    for (rev, parent, format, payload) in revisions {
        revision(events, rev, parent, format, payload);
    }
    events.push(end("page"));
}

fn json(source: &str) -> serde_json::Value {
    serde_json::from_str(source).unwrap()
}

fn run(events: &Vec<XmlEvent>, filter: &MembershipFilter, policy: FormatPolicy, bulk: usize) -> edit_history::pipeline::Report {
    process_events(events, String::from("dump.xml"), filter, policy, bulk)
}

const JSON: &str = "application/json";

#[test]
fn two_revisions_end_to_end() {
    let mut events = Vec::new();
    page(
        &mut events,
        "Q1",
        "7",
        &[
            ("10", "0", JSON, "{&quot;a&quot;:1}"),
            ("11", "10", JSON, "{&quot;a&quot;:1,&quot;b&quot;:2}"),
        ],
    );
    events.push(XmlEvent::Eof);

    let report = run(&events, &MembershipFilter::accept_all(), FormatPolicy::Retain, 100);
    assert!(report.failure.is_none());
    assert!(report.rejected.is_empty());
    assert_eq!(report.units.len(), 1);
    let unit = &report.units[0];
    assert_eq!(unit.name, "dump.json_0.json");
    assert_eq!(unit.ordinal, 0);
    assert_eq!(unit.items.len(), 1);
    let item = &unit.items[0];
    assert_eq!(item.entity_id, "Q1");
    assert_eq!(item.id, 7);
    assert_eq!(item.entity_json, json("{\"a\":1,\"b\":2}"));
    assert_eq!(item.revisions.len(), 2);
    assert_eq!(item.revisions[0].id, 10);
    assert_eq!(item.revisions[0].parent_id, 0);
    assert_eq!(item.revisions[0].username, "alice");
    assert_eq!(item.revisions[0].comment, "edit");
    assert_eq!(item.revisions[0].timestamp, "2020-01-01T00:00:00Z");
    assert_eq!(item.revisions[1].id, 11);
    assert_eq!(item.revisions[1].parent_id, 10);

    let first = item.revisions[0].entity_diff.as_ref().unwrap();
    let mut document = json("{}");
    json_patch::patch(&mut document, first).unwrap();
    assert_eq!(document, json("{\"a\":1}"));

    let second = item.revisions[1].entity_diff.as_ref().unwrap();
    assert_eq!(second.0.len(), 1);
    match &second.0[0] {
        json_patch::PatchOperation::Add(op) => {
            assert_eq!(op.path, "/b");
            assert_eq!(op.value, serde_json::Value::from(2));
        }
        other => panic!("unexpected operation {:?}", other),
    }
}

#[test]
fn same_payload_twice_gives_an_empty_patch() {
    let mut events = Vec::new();
    let payload = "{\"labels\":{\"en\":\"x\"},\"claims\":[1,2,{\"k\":null}]}";
    page(&mut events, "Q2", "1", &[("1", "0", JSON, payload), ("2", "1", JSON, payload)]);
    let report = run(&events, &MembershipFilter::accept_all(), FormatPolicy::Retain, 10);
    let item = &report.units[0].items[0];
    assert!(!item.revisions[0].entity_diff.as_ref().unwrap().0.is_empty());
    assert!(item.revisions[1].entity_diff.as_ref().unwrap().0.is_empty());
}

#[test]
fn every_patch_leads_from_the_previous_payload_to_the_next() {
    let payloads = [
        "{\"a\":1}",
        "{\"a\":1,\"b\":{\"c\":[1,2,3]}}",
        "{\"b\":{\"c\":[1,3],\"d\":\"x\"}}",
        "{}",
        "{\"z\":[{\"p\":true},{\"q\":false}]}",
    ];
    let mut events = Vec::new();
    let revisions: Vec<(String, String)> = payloads
        .iter()
        .enumerate()
        .map(|(i, payload)| ((i + 1).to_string(), String::from(*payload)))
        .collect();
    let borrowed: Vec<(&str, &str, &str, &str)> =
        revisions.iter().map(|(id, payload)| (id.as_str(), "0", JSON, payload.as_str())).collect();
    page(&mut events, "Q3", "3", &borrowed);
    let report = run(&events, &MembershipFilter::accept_all(), FormatPolicy::Retain, 10);
    let item = &report.units[0].items[0];
    let mut document = json("{}");
    for (revision, payload) in item.revisions.iter().zip(payloads.iter()) {
        json_patch::patch(&mut document, revision.entity_diff.as_ref().unwrap()).unwrap();
        assert_eq!(document, json(payload));
    }
    assert_eq!(item.entity_json, json(payloads[4]));
}

#[test]
fn revisions_keep_the_order_of_the_stream() {
    let mut events = Vec::new();
    page(
        &mut events,
        "Q4",
        "4",
        &[
            ("30", "0", JSON, "{}"),
            ("10", "30", JSON, "{\"a\":1}"),
            ("20", "10", JSON, "{\"a\":2}"),
        ],
    );
    let report = run(&events, &MembershipFilter::accept_all(), FormatPolicy::Retain, 10);
    let ids: Vec<u64> = report.units[0].items[0].revisions.iter().map(|r| r.id).collect();
    assert_eq!(ids, vec![30, 10, 20]);
}

#[test]
fn contributor_id_belongs_to_no_one() {
    let mut events = Vec::new();
    page(&mut events, "Q5", "55", &[("66", "0", JSON, "{}")]);
    let report = run(&events, &MembershipFilter::accept_all(), FormatPolicy::Retain, 10);
    let item = &report.units[0].items[0];
    assert_eq!(item.id, 55);
    assert_eq!(item.revisions[0].id, 66);
}

#[test]
fn contributor_id_is_not_even_read() {
    let filter = MembershipFilter::accept_all();
    let mut parser = DumpParser::new(FormatPolicy::Retain);
    for event in [start("page"), start("revision"), start("contributor"), start("id")] {
        assert!(matches!(parser.step(&event, &filter), Ok(Outcome::Continue)));
    }
    assert_eq!(parser.context(), Context::InRevisionContributor);
    assert!(!parser.wants_text());
    assert!(matches!(parser.step(&text("not a number"), &filter), Ok(Outcome::Continue)));
}

#[test]
fn items_outside_the_list_are_never_emitted() {
    let mut events = Vec::new();
    page(&mut events, "Q1", "1", &[("1", "0", JSON, "{}")]);
    page(&mut events, "Q2", "2", &[("2", "0", JSON, "{}")]);
    page(&mut events, "Q3", "3", &[("3", "0", JSON, "{}")]);
    let filter = MembershipFilter::from_list(vec![String::from("Q2"), String::from("Q9")]);
    let report = run(&events, &filter, FormatPolicy::Retain, 10);
    assert_eq!(report.units.len(), 1);
    let titles: Vec<&str> = report.units[0].items.iter().map(|i| i.entity_id.as_str()).collect();
    assert_eq!(titles, vec!["Q2"]);
}

#[test]
fn item_count_is_the_count_of_qualifying_pages() {
    let mut events = Vec::new();
    page(&mut events, "Q1", "1", &[("1", "0", JSON, "{}")]);
    page(&mut events, "Q2", "2", &[("2", "0", "text/x-wiki", "hello")]);
    page(&mut events, "Q3", "3", &[]);
    page(&mut events, "Q4", "4", &[("4", "0", "text/plain", "x"), ("5", "4", JSON, "{\"a\":1}")]);
    page(&mut events, "Q5", "5", &[("6", "0", JSON, "{}")]);
    let filter = MembershipFilter::from_list(vec![
        String::from("Q1"),
        String::from("Q2"),
        String::from("Q3"),
        String::from("Q4"),
    ]);
    let report = run(&events, &filter, FormatPolicy::Retain, 10);
    assert!(report.failure.is_none());
    let titles: Vec<&str> = report.units[0].items.iter().map(|i| i.entity_id.as_str()).collect();
    assert_eq!(titles, vec!["Q1", "Q4"]);
}

#[test]
fn another_format_has_no_patch_and_is_no_previous_payload() {
    let mut events = Vec::new();
    page(
        &mut events,
        "Q1",
        "1",
        &[
            ("1", "0", JSON, "{\"a\":1}"),
            ("2", "1", "text/x-wiki", "{\"a\":1,\"zzz\":0}"),
            ("3", "2", JSON, "{\"a\":1,\"b\":2}"),
        ],
    );
    let report = run(&events, &MembershipFilter::accept_all(), FormatPolicy::Retain, 10);
    let item = &report.units[0].items[0];
    assert_eq!(item.revisions.len(), 3);
    assert!(item.revisions[1].entity_diff.is_none());
    assert_eq!(item.revisions[1].id, 2);
    let third = item.revisions[2].entity_diff.as_ref().unwrap();
    let mut document = json("{\"a\":1}");
    json_patch::patch(&mut document, third).unwrap();
    assert_eq!(document, json("{\"a\":1,\"b\":2}"));
    assert_eq!(third.0.len(), 1);
}

#[test]
fn drop_policy_leaves_other_formats_out() {
    let mut events = Vec::new();
    page(
        &mut events,
        "Q1",
        "1",
        &[("1", "0", JSON, "{}"), ("2", "1", "text/x-wiki", "x"), ("3", "2", JSON, "{\"b\":2}")],
    );
    let report = run(&events, &MembershipFilter::accept_all(), FormatPolicy::Drop, 10);
    let ids: Vec<u64> = report.units[0].items[0].revisions.iter().map(|r| r.id).collect();
    assert_eq!(ids, vec![1, 3]);
}

#[test]
fn a_payload_that_does_not_parse_is_reported_and_skipped() {
    let mut events = Vec::new();
    page(
        &mut events,
        "Q1",
        "1",
        &[("1", "0", JSON, "{\"a\":1}"), ("2", "1", JSON, "{not json"), ("3", "2", JSON, "{\"a\":2}")],
    );
    let report = run(&events, &MembershipFilter::accept_all(), FormatPolicy::Retain, 10);
    assert!(report.failure.is_none());
    assert_eq!(report.rejected.len(), 1);
    assert_eq!(report.rejected[0].entity_id, "Q1");
    assert_eq!(report.rejected[0].revision_id, 2);
    let item = &report.units[0].items[0];
    assert_eq!(item.revisions.len(), 3);
    assert!(item.revisions[1].entity_diff.is_none());
    let mut document = json("{\"a\":1}");
    json_patch::patch(&mut document, item.revisions[2].entity_diff.as_ref().unwrap()).unwrap();
    assert_eq!(document, json("{\"a\":2}"));
}

#[test]
fn an_item_without_a_valid_payload_is_discarded() {
    let mut events = Vec::new();
    page(&mut events, "Q1", "1", &[("1", "0", JSON, "oops")]);
    let report = run(&events, &MembershipFilter::accept_all(), FormatPolicy::Retain, 10);
    assert!(report.units.is_empty());
    assert_eq!(report.rejected.len(), 1);
}

#[test]
fn text_is_unescaped() {
    let mut events = Vec::new();
    events.push(start("page"));
    field(&mut events, "title", "A &amp; B");
    field(&mut events, "id", "1");
    revision(&mut events, "1", "0", JSON, "{&quot;k&quot;:&quot;&lt;&#65;&gt;&quot;}");
    events.push(end("page"));
    let report = run(&events, &MembershipFilter::accept_all(), FormatPolicy::Retain, 10);
    let item = &report.units[0].items[0];
    assert_eq!(item.entity_id, "A & B");
    assert_eq!(item.entity_json, json("{\"k\":\"<A>\"}"));
}

#[test]
fn payload_text_in_pieces_is_joined() {
    let mut events = Vec::new();
    events.push(start("page"));
    field(&mut events, "title", "Q1");
    events.push(start("revision"));
    field(&mut events, "format", JSON);
    events.push(start("text"));
    events.push(text("{\"a\""));
    events.push(XmlEvent::Other);
    events.push(text(":1}"));
    events.push(end("text"));
    events.push(end("revision"));
    events.push(end("page"));
    let report = run(&events, &MembershipFilter::accept_all(), FormatPolicy::Retain, 10);
    assert_eq!(report.units[0].items[0].entity_json, json("{\"a\":1}"));
}

#[test]
fn the_filter_is_asked_once_per_item() {
    let mut events = Vec::new();
    events.push(start("page"));
    field(&mut events, "title", "Q1");
    field(&mut events, "title", "Q2");
    revision(&mut events, "1", "0", JSON, "{}");
    events.push(end("page"));
    let filter = MembershipFilter::from_list(vec![String::from("Q1")]);
    let report = run(&events, &filter, FormatPolicy::Retain, 10);
    assert_eq!(report.units[0].items[0].entity_id, "Q1");
}

#[test]
fn unknown_elements_and_outside_text_are_ignored() {
    let mut events = Vec::new();
    events.push(start("mediawiki"));
    events.push(start("siteinfo"));
    field(&mut events, "id", "not a number");
    field(&mut events, "title", "ignored");
    events.push(end("siteinfo"));
    events.push(start("page"));
    field(&mut events, "title", "Q1");
    field(&mut events, "ns", "0");
    field(&mut events, "id", "5");
    events.push(XmlEvent::Other);
    revision(&mut events, "1", "0", JSON, "{}");
    events.push(end("page"));
    events.push(end("mediawiki"));
    events.push(XmlEvent::Eof);
    let report = run(&events, &MembershipFilter::accept_all(), FormatPolicy::Retain, 10);
    assert!(report.failure.is_none());
    assert_eq!(report.units[0].items[0].id, 5);
}

#[test]
fn failure_unexpected_start() {
    let events = vec![start("page"), start("page")];
    let report = run(&events, &MembershipFilter::accept_all(), FormatPolicy::Retain, 10);
    let failure = report.failure.unwrap();
    assert_eq!(failure.position, 1);
    assert_eq!(failure.error, StreamError::UnexpectedStart(Tag::Page));

    let events = vec![start("revision")];
    let report = run(&events, &MembershipFilter::accept_all(), FormatPolicy::Retain, 10);
    assert_eq!(report.failure.unwrap().error, StreamError::UnexpectedStart(Tag::Revision));

    let events = vec![start("page"), start("contributor")];
    let report = run(&events, &MembershipFilter::accept_all(), FormatPolicy::Retain, 10);
    assert_eq!(report.failure.unwrap().error, StreamError::UnexpectedStart(Tag::Contributor));
}

#[test]
fn failure_unexpected_end() {
    let events = vec![start("page"), start("revision"), end("page")];
    let report = run(&events, &MembershipFilter::accept_all(), FormatPolicy::Retain, 10);
    let failure = report.failure.unwrap();
    assert_eq!(failure.position, 2);
    assert_eq!(failure.error, StreamError::UnexpectedEnd(Tag::Page));

    let events = vec![end("revision")];
    let report = run(&events, &MembershipFilter::accept_all(), FormatPolicy::Retain, 10);
    assert_eq!(report.failure.unwrap().error, StreamError::UnexpectedEnd(Tag::Revision));
}

#[test]
fn failure_truncated() {
    let events = vec![start("page"), XmlEvent::Eof];
    let report = run(&events, &MembershipFilter::accept_all(), FormatPolicy::Retain, 10);
    let failure = report.failure.unwrap();
    assert_eq!(failure.position, 1);
    assert_eq!(failure.error, StreamError::Truncated);

    let events = vec![start("page"), start("revision")];
    let report = run(&events, &MembershipFilter::accept_all(), FormatPolicy::Retain, 10);
    let failure = report.failure.unwrap();
    assert_eq!(failure.position, 2);
    assert_eq!(failure.error, StreamError::Truncated);
}

#[test]
fn failure_undecodable_text() {
    let events = vec![start("page"), start("title"), text("a &bogus; b")];
    let report = run(&events, &MembershipFilter::accept_all(), FormatPolicy::Retain, 10);
    assert_eq!(report.failure.unwrap().error, StreamError::UndecodableText);

    let events = vec![start("page"), start("title"), XmlEvent::Text(vec![0xff, 0xfe])];
    let report = run(&events, &MembershipFilter::accept_all(), FormatPolicy::Retain, 10);
    assert_eq!(report.failure.unwrap().error, StreamError::UndecodableText);
}

#[test]
fn failure_invalid_number() {
    let events = vec![start("page"), start("id"), text("12a")];
    let report = run(&events, &MembershipFilter::accept_all(), FormatPolicy::Retain, 10);
    let failure = report.failure.unwrap();
    assert_eq!(failure.position, 2);
    assert_eq!(failure.error, StreamError::InvalidNumber);
}

#[test]
fn a_failure_keeps_the_batches_flushed_before() {
    let mut events = Vec::new();
    page(&mut events, "Q1", "1", &[("1", "0", JSON, "{}")]);
    page(&mut events, "Q2", "2", &[("2", "0", JSON, "{}")]);
    page(&mut events, "Q3", "3", &[("3", "0", JSON, "{}")]);
    events.push(end("page"));
    let report = run(&events, &MembershipFilter::accept_all(), FormatPolicy::Retain, 1);
    assert_eq!(report.failure.unwrap().error, StreamError::UnexpectedEnd(Tag::Page));
    assert_eq!(report.units.len(), 1);
    assert_eq!(report.units[0].items.len(), 2);
}

#[test]
fn events_after_the_end_of_the_stream_are_not_taken() {
    let mut events = Vec::new();
    page(&mut events, "Q1", "1", &[("1", "0", JSON, "{}")]);
    events.push(XmlEvent::Eof);
    events.push(end("page"));
    page(&mut events, "Q2", "2", &[("2", "0", JSON, "{}")]);
    let report = run(&events, &MembershipFilter::accept_all(), FormatPolicy::Retain, 10);
    assert!(report.failure.is_none());
    assert_eq!(report.units.len(), 1);
    assert_eq!(report.units[0].items.len(), 1);
}

#[test]
fn step_reports_items_and_the_end() {
    let filter = MembershipFilter::accept_all();
    let mut parser = DumpParser::new(FormatPolicy::Retain);
    let mut events = Vec::new();
    page(&mut events, "Q1", "1", &[("1", "0", JSON, "{\"a\":1}")]);
    let last = events.pop().unwrap();
    for event in &events {
        assert!(matches!(parser.step(event, &filter), Ok(Outcome::Continue)));
    }
    assert_eq!(parser.context(), Context::InItem);
    match parser.step(&last, &filter) {
        Ok(Outcome::Item(item)) => assert_eq!(item.entity_json, json("{\"a\":1}")),
        other => panic!("unexpected outcome {:?}", other),
    }
    assert_eq!(parser.context(), Context::OutsideItem);
    assert!(matches!(parser.step(&XmlEvent::Eof, &filter), Ok(Outcome::Finished)));
}

#[test]
fn finish_revision_takes_the_parse_as_given() {
    let filter = MembershipFilter::accept_all();
    let mut parser = DumpParser::new(FormatPolicy::Retain);
    parser.on_start(Tag::Page).unwrap();
    parser.on_start(Tag::Title).unwrap();
    parser.on_text(String::from("Q1"), &filter).unwrap();
    parser.on_end(Tag::Title).unwrap();
    parser.on_start(Tag::Revision).unwrap();
    parser.on_start(Tag::Id).unwrap();
    parser.on_text(String::from("+12"), &filter).unwrap();
    parser.on_start(Tag::Format).unwrap();
    parser.on_text(String::from(JSON), &filter).unwrap();
    assert!(parser.compares_revision());
    assert!(matches!(parser.finish_revision(Some(json("{\"x\":1}"))), Outcome::Continue));
    parser.on_start(Tag::Revision).unwrap();
    parser.on_start(Tag::Format).unwrap();
    parser.on_text(String::from(JSON), &filter).unwrap();
    match parser.finish_revision(None) {
        Outcome::PayloadRejected { entity_id, revision_id } => {
            assert_eq!(entity_id, "Q1");
            assert_eq!(revision_id, 0);
        }
        other => panic!("unexpected outcome {:?}", other),
    }
    match parser.on_end(Tag::Page) {
        Ok(Outcome::Item(item)) => {
            assert_eq!(item.revisions.len(), 2);
            assert_eq!(item.revisions[0].id, 12);
            assert_eq!(item.entity_json, json("{\"x\":1}"));
            let patch = item.revisions[0].entity_diff.as_ref().unwrap();
            assert_eq!(*patch, json_patch::diff(&json("{}"), &json("{\"x\":1}")));
        }
        other => panic!("unexpected outcome {:?}", other),
    }
}

#[test]
fn record_revision_stores_what_it_is_given() {
    let filter = MembershipFilter::accept_all();
    let mut parser = DumpParser::new(FormatPolicy::Retain);
    parser.on_start(Tag::Page).unwrap();
    parser.on_start(Tag::Title).unwrap();
    parser.on_text(String::from("Q1"), &filter).unwrap();
    parser.on_start(Tag::Revision).unwrap();
    let patch = json_patch::diff(&json("[1]"), &json("[1,2]"));
    parser.record_revision(json("{\"given\":true}"), patch.clone());
    match parser.on_end(Tag::Page) {
        Ok(Outcome::Item(item)) => {
            assert_eq!(item.entity_json, json("{\"given\":true}"));
            assert_eq!(item.revisions[0].entity_diff, Some(patch));
        }
        other => panic!("unexpected outcome {:?}", other),
    }
}

#[test]
fn tags_are_classified_by_name() {
    assert_eq!(classify_tag(b"page"), Tag::Page);
    assert_eq!(classify_tag(b"revision"), Tag::Revision);
    assert_eq!(classify_tag(b"contributor"), Tag::Contributor);
    assert_eq!(classify_tag(b"title"), Tag::Title);
    assert_eq!(classify_tag(b"id"), Tag::Id);
    assert_eq!(classify_tag(b"parentid"), Tag::ParentId);
    assert_eq!(classify_tag(b"timestamp"), Tag::Timestamp);
    assert_eq!(classify_tag(b"username"), Tag::Username);
    assert_eq!(classify_tag(b"comment"), Tag::Comment);
    assert_eq!(classify_tag(b"format"), Tag::Format);
    assert_eq!(classify_tag(b"text"), Tag::Text);
    assert_eq!(classify_tag(b"Page"), Tag::Other);
    assert_eq!(classify_tag(b"pages"), Tag::Other);
    assert_eq!(classify_tag(b""), Tag::Other);
}

#[test]
fn a_payload_before_its_format_is_compared() {
    let mut events = Vec::new();
    events.push(start("page"));
    field(&mut events, "title", "Q1");
    field(&mut events, "id", "1");
    events.push(start("revision"));
    field(&mut events, "text", "{\"a\":1}");
    field(&mut events, "id", "10");
    field(&mut events, "format", JSON);
    events.push(end("revision"));
    events.push(start("revision"));
    field(&mut events, "text", "{\"a\":1,\"b\":2}");
    field(&mut events, "format", JSON);
    field(&mut events, "id", "11");
    events.push(end("revision"));
    events.push(end("page"));
    let report = run(&events, &MembershipFilter::accept_all(), FormatPolicy::Retain, 10);
    assert!(report.failure.is_none());
    assert!(report.rejected.is_empty());
    let item = &report.units[0].items[0];
    assert_eq!(item.entity_json, json("{\"a\":1,\"b\":2}"));
    assert_eq!(item.revisions.len(), 2);
    assert_eq!(item.revisions[0].id, 10);
    let mut document = json("{}");
    json_patch::patch(&mut document, item.revisions[0].entity_diff.as_ref().unwrap()).unwrap();
    assert_eq!(document, json("{\"a\":1}"));
    json_patch::patch(&mut document, item.revisions[1].entity_diff.as_ref().unwrap()).unwrap();
    assert_eq!(document, json("{\"a\":1,\"b\":2}"));
}

#[test]
fn a_payload_of_another_format_is_read_but_not_parsed() {
    let mut events = Vec::new();
    events.push(start("page"));
    field(&mut events, "title", "Q1");
    events.push(start("revision"));
    field(&mut events, "text", "== not json ==");
    field(&mut events, "format", "text/x-wiki");
    events.push(end("revision"));
    events.push(start("revision"));
    field(&mut events, "text", "still not json");
    events.push(end("revision"));
    revision(&mut events, "3", "0", JSON, "{}");
    events.push(end("page"));
    let report = run(&events, &MembershipFilter::accept_all(), FormatPolicy::Retain, 10);
    assert!(report.failure.is_none());
    assert!(report.rejected.is_empty());
    let item = &report.units[0].items[0];
    assert_eq!(item.revisions.len(), 3);
    assert!(item.revisions[0].entity_diff.is_none());
    assert!(item.revisions[1].entity_diff.is_none());
    assert!(item.revisions[2].entity_diff.is_some());
}

#[test]
fn a_title_after_the_revisions_decides_the_item() {
    let filter = MembershipFilter::from_list(vec![String::from("Q1")]);
    for (title, emitted) in [("Q1", true), ("Q2", false)] {
        let mut events = Vec::new();
        events.push(start("page"));
        revision(&mut events, "5", "0", JSON, "{\"a\":1}");
        field(&mut events, "id", "9");
        field(&mut events, "title", title);
        revision(&mut events, "6", "5", JSON, "{\"a\":2}");
        events.push(end("page"));
        let report = run(&events, &filter, FormatPolicy::Retain, 10);
        assert!(report.failure.is_none());
        if emitted {
            let item = &report.units[0].items[0];
            assert_eq!(item.entity_id, "Q1");
            assert_eq!(item.id, 9);
            let ids: Vec<u64> = item.revisions.iter().map(|r| r.id).collect();
            assert_eq!(ids, vec![5, 6]);
            assert_eq!(item.entity_json, json("{\"a\":2}"));
        } else {
            assert!(report.units.is_empty());
        }
    }
}

#[test]
fn a_page_without_a_title_yields_nothing() {
    let mut events = Vec::new();
    events.push(start("page"));
    field(&mut events, "id", "9");
    revision(&mut events, "5", "0", JSON, "{\"a\":1}");
    events.push(end("page"));
    let report = run(&events, &MembershipFilter::accept_all(), FormatPolicy::Retain, 10);
    assert!(report.failure.is_none());
    assert!(report.units.is_empty());
}

#[test]
fn revisions_of_a_rejected_item_are_not_looked_at() {
    let mut events = Vec::new();
    page(&mut events, "Q2", "2", &[("1", "0", JSON, "{broken"), ("2", "1", JSON, "&bogus;")]);
    let filter = MembershipFilter::from_list(vec![String::from("Q1")]);
    let report = run(&events, &filter, FormatPolicy::Retain, 10);
    assert!(report.failure.is_none());
    assert!(report.rejected.is_empty());
    assert!(report.units.is_empty());
}

#[test]
fn the_last_of_repeated_fields_counts() {
    let mut events = Vec::new();
    events.push(start("page"));
    field(&mut events, "id", "1");
    field(&mut events, "title", "Q1");
    field(&mut events, "id", "2");
    events.push(start("revision"));
    field(&mut events, "format", JSON);
    field(&mut events, "comment", "first");
    field(&mut events, "username", "outside");
    field(&mut events, "id", "10");
    events.push(start("contributor"));
    field(&mut events, "username", "inside");
    events.push(start("username"));
    events.push(end("username"));
    events.push(end("contributor"));
    field(&mut events, "id", "11");
    field(&mut events, "comment", "second");
    field(&mut events, "format", "text/plain");
    field(&mut events, "text", "{}");
    field(&mut events, "format", JSON);
    events.push(end("revision"));
    events.push(end("page"));
    let report = run(&events, &MembershipFilter::accept_all(), FormatPolicy::Retain, 10);
    let item = &report.units[0].items[0];
    assert_eq!(item.id, 2);
    assert_eq!(item.revisions[0].id, 11);
    assert_eq!(item.revisions[0].comment, "second");
    assert_eq!(item.revisions[0].username, "inside");
    assert!(item.revisions[0].entity_diff.is_some());
}

#[test]
fn an_unchanged_payload_has_a_patch_without_operations() {
    let filter = MembershipFilter::accept_all();
    let mut parser = DumpParser::new(FormatPolicy::Retain);
    let mut events = Vec::new();
    events.push(start("page"));
    field(&mut events, "title", "Q1");
    revision(&mut events, "1", "0", JSON, "{}");
    revision(&mut events, "2", "1", JSON, "{\"a\":[1,{\"b\":null}]}");
    revision(&mut events, "3", "2", JSON, "{ \"a\" : [1, {\"b\": null}] }");
    for event in &events {
        assert!(matches!(parser.step(event, &filter), Ok(Outcome::Continue)));
    }
    match parser.step(&end("page"), &filter) {
        Ok(Outcome::Item(item)) => {
            assert_eq!(item.revisions[0].entity_diff.as_ref().unwrap().0.len(), 0);
            assert_eq!(item.revisions[1].entity_diff.as_ref().unwrap().0.len(), 1);
            assert_eq!(item.revisions[2].entity_diff.as_ref().unwrap().0.len(), 0);
        }
        other => panic!("unexpected outcome {:?}", other),
    }
}
