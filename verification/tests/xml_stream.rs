use edit_history::filter::MembershipFilter;
use edit_history::markup::XmlEvent;
use edit_history::parser::FormatPolicy;
use edit_history::pipeline::process_events;
use quick_xml::events::Event;
use quick_xml::Reader;

fn events_of(xml: &str) -> Vec<XmlEvent> {
    let mut reader = Reader::from_str(xml);
    reader.trim_text(true);
    let mut buf = Vec::new();
    let mut events = Vec::new();
    loop {
        let event = match reader.read_event(&mut buf).unwrap() {
            Event::Start(e) => XmlEvent::Start(e.name().to_vec()),
            Event::End(e) => XmlEvent::End(e.name().to_vec()),
            Event::Text(e) => XmlEvent::Text(e.escaped().to_vec()),
            Event::Eof => XmlEvent::Eof,
            _ => XmlEvent::Other,
        };
        let last = matches!(event, XmlEvent::Eof);
        events.push(event);
        buf.clear();
        if last {
            return events;
        }
    }
}

const DUMP: &str = r#"<mediawiki xml:lang="en">
  <siteinfo>
    <sitename>Wikidata</sitename>
    <namespaces><namespace key="0" case="first-letter" /></namespaces>
  </siteinfo>
  <page>
    <title>Q42</title>
    <ns>0</ns>
    <id>138</id>
    <revision>
      <id>1001</id>
      <timestamp>2012-10-29T17:00:00Z</timestamp>
      <contributor>
        <username>Alice &amp; Bob</username>
        <id>77</id>
      </contributor>
      <comment>created</comment>
      <model>wikibase-item</model>
      <format>application/json</format>
      <text bytes="30" xml:space="preserve">{&quot;labels&quot;:{&quot;en&quot;:&quot;Douglas&quot;}}</text>
      <sha1>abc</sha1>
    </revision>
    <revision>
      <id>1002</id>
      <parentid>1001</parentid>
      <timestamp>2012-10-30T09:00:00Z</timestamp>
      <contributor>
        <ip>127.0.0.1</ip>
      </contributor>
      <minor />
      <comment>label</comment>
      <model>wikibase-item</model>
      <format>application/json</format>
      <text bytes="36" xml:space="preserve">{&quot;labels&quot;:{&quot;en&quot;:&quot;Douglas Adams&quot;}}</text>
    </revision>
  </page>
  <page>
    <title>Talk:Q42</title>
    <ns>1</ns>
    <id>139</id>
    <revision>
      <id>2001</id>
      <timestamp>2012-10-29T17:00:00Z</timestamp>
      <contributor><username>Carol</username><id>78</id></contributor>
      <model>wikitext</model>
      <format>text/x-wiki</format>
      <text bytes="5" xml:space="preserve">hello</text>
    </revision>
  </page>
</mediawiki>"#;

#[test]
fn a_dump_read_by_the_markup_reader() {
    let events = events_of(DUMP);
    let report = process_events(
        &events,
        String::from("wikidata-p1.xml"),
        &MembershipFilter::accept_all(),
        FormatPolicy::Retain,
        100,
    );
    assert!(report.failure.is_none());
    assert!(report.rejected.is_empty());
    assert_eq!(report.units.len(), 1);
    assert_eq!(report.units[0].name, "wikidata-p1.json_0.json");
    let items = &report.units[0].items;
    assert_eq!(items.len(), 1);
    let item = &items[0];
    assert_eq!(item.entity_id, "Q42");
    assert_eq!(item.id, 138);
    assert_eq!(item.revisions.len(), 2);
    assert_eq!(item.revisions[0].id, 1001);
    assert_eq!(item.revisions[0].parent_id, 0);
    assert_eq!(item.revisions[0].username, "Alice & Bob");
    assert_eq!(item.revisions[0].comment, "created");
    assert_eq!(item.revisions[1].id, 1002);
    assert_eq!(item.revisions[1].parent_id, 1001);
    assert_eq!(item.revisions[1].username, "");
    let expected: serde_json::Value =
        serde_json::from_str("{\"labels\":{\"en\":\"Douglas Adams\"}}").unwrap();
    assert_eq!(item.entity_json, expected);
    let second = item.revisions[1].entity_diff.as_ref().unwrap();
    assert_eq!(second.0.len(), 1);
    match &second.0[0] {
        json_patch::PatchOperation::Replace(op) => {
            assert_eq!(op.path, "/labels/en");
            assert_eq!(op.value, serde_json::Value::from("Douglas Adams"));
        }
        other => panic!("unexpected operation {:?}", other),
    }
}

#[test]
fn a_dump_cut_short_fails() {
    let cut = &DUMP[..DUMP.find("</page>").unwrap()];
    let events = events_of(cut);
    let report = process_events(
        &events,
        String::from("wikidata-p1.xml"),
        &MembershipFilter::accept_all(),
        FormatPolicy::Retain,
        100,
    );
    assert_eq!(report.failure.unwrap().error, edit_history::parser::StreamError::Truncated);
    assert!(report.units.is_empty());
}
