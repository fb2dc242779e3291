use edit_history::batch::{save_entities_diff, BatchWriter};
use edit_history::filter::{get_entities_to_fetch, MembershipFilter};
use edit_history::model::WikidataItem;

fn item(n: u64) -> WikidataItem {
    WikidataItem {
        id: n,
        entity_id: format!("Q{}", n),
        entity_json: serde_json::Value::Null,
        revisions: Vec::new(),
    }
}

#[test]
fn bulk_of_100_with_250_items() {
    let mut writer = BatchWriter::new(String::from("part.xml"), 100);
    let mut flushed_after = Vec::new();
    let mut sizes = Vec::new();
    for n in 1..=250u64 {
        if let Some(unit) = writer.accept(item(n)) {
            flushed_after.push(n);
            sizes.push(unit.items.len());
            assert_eq!(unit.ordinal, (flushed_after.len() - 1) as u64);
            assert_eq!(unit.items[0].id, n - 100);
            assert_eq!(unit.items[100].id, n);
        }
    }
    assert_eq!(flushed_after, vec![101, 202]);
    assert_eq!(sizes, vec![101, 101]);
    assert_eq!(writer.flushes(), 2);
    assert_eq!(writer.buffered(), 48);
    let last = writer.finish().unwrap();
    assert_eq!(last.items.len(), 48);
    assert_eq!(last.ordinal, 2);
    assert_eq!(last.name, "part.json_2.json");
    assert_eq!(last.items[0].id, 203);
    assert_eq!(writer.flushes(), 3);
    assert!(writer.finish().is_none());
}

#[test]
fn an_exact_multiple_leaves_nothing_for_the_end() {
    let mut writer = BatchWriter::new(String::from("a"), 2);
    let mut flushes = 0;
    for n in 0..9u64 {
        if writer.accept(item(n)).is_some() {
            flushes += 1;
        }
    }
    assert_eq!(flushes, 3);
    assert_eq!(writer.buffered(), 0);
    assert!(writer.finish().is_none());
    assert_eq!(writer.flushes(), 3);
}

#[test]
fn bulk_size_zero_flushes_every_item() {
    let mut writer = BatchWriter::new(String::from("a"), 0);
    assert_eq!(writer.accept(item(1)).unwrap().items.len(), 1);
    assert_eq!(writer.accept(item(2)).unwrap().ordinal, 1);
    assert!(writer.finish().is_none());
}

#[test]
fn an_empty_writer_has_no_last_batch() {
    let mut writer = BatchWriter::new(String::from("a"), 5);
    assert!(writer.finish().is_none());
    assert_eq!(writer.flushes(), 0);
}

#[test]
fn flush_hands_out_the_buffer() {
    let mut writer = BatchWriter::new(String::from("a.xml"), 5);
    assert!(writer.accept(item(1)).is_none());
    assert!(writer.accept(item(2)).is_none());
    let unit = writer.flush();
    assert_eq!(unit.items.len(), 2);
    assert_eq!(unit.name, "a.json_0.json");
    assert_eq!(writer.buffered(), 0);
    assert_eq!(writer.flush().name, "a.json_1.json");
}

#[test]
fn save_entities_diff_names_and_counts() {
    let mut counter = 0u64;
    let unit = save_entities_diff(vec![item(1)], "wikidata-xml-p1.xml", &mut counter);
    assert_eq!(unit.name, "wikidata-json-p1.json_0.json");
    assert_eq!(unit.ordinal, 0);
    assert_eq!(unit.items.len(), 1);
    assert_eq!(counter, 1);
    let mut counter = 41u64;
    let unit = save_entities_diff(Vec::new(), "dump", &mut counter);
    assert_eq!(unit.name, "dump_41.json");
    assert_eq!(counter, 42);
    let mut counter = 1234567890u64;
    assert_eq!(save_entities_diff(Vec::new(), "x", &mut counter).name, "x_1234567890.json");
}

#[test]
fn filter_without_a_list_accepts_everything() {
    let filter = MembershipFilter::accept_all();
    assert!(filter.contains("Q1"));
    assert!(filter.contains(""));
}

#[test]
fn filter_with_a_list_accepts_what_is_listed() {
    let filter = MembershipFilter::from_list(vec![String::from("Q1"), String::from("Q22")]);
    assert!(filter.contains("Q1"));
    assert!(filter.contains("Q22"));
    assert!(!filter.contains("Q2"));
    assert!(!filter.contains("q1"));
    assert!(!filter.contains(""));
    let empty = MembershipFilter::from_list(Vec::new());
    assert!(!empty.contains("Q1"));
}

#[test]
fn membership_lines_are_trimmed() {
    let lines = vec![
        String::from("Q1"),
        String::from("  Q2\t"),
        String::from("Q3\r"),
        String::from("\u{a0}Q 4\u{3000}"),
        String::from(""),
    ];
    let filter = get_entities_to_fetch(&lines);
    assert!(filter.contains("Q1"));
    assert!(filter.contains("Q2"));
    assert!(filter.contains("Q3"));
    assert!(filter.contains("Q 4"));
    assert!(filter.contains(""));
    assert!(!filter.contains("  Q2\t"));
    assert!(!filter.contains("Q4"));
}

#[test]
fn a_long_list_is_looked_up_exactly() {
    let ids: Vec<String> = (0..2000u32).map(|n| format!("Q{}", n * 3)).collect();
    let filter = MembershipFilter::from_list(ids);
    for n in 0..6000u32 {
        assert_eq!(filter.contains(&format!("Q{}", n)), n % 3 == 0, "Q{}", n);
    }
    let twice = MembershipFilter::from_list(vec![String::from("é"), String::from("é")]);
    assert!(twice.contains("é"));
    assert!(!twice.contains("e"));
}
