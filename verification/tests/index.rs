use git_crev::entries::IndexEntry;
use git_crev::index::{Index, IndexRecords, TrustOrDistrust};

fn entry(id: &str, summary: &str) -> IndexEntry {
    IndexEntry::new(id.to_string(), summary.to_string())
}

fn ids(records: &Vec<IndexEntry>) -> Vec<String> {
    records.iter().map(|e| e.commit_id.clone()).collect()
}

fn pairs(records: &Vec<IndexEntry>) -> Vec<(String, String)> {
    records.iter().map(|e| (e.commit_id.clone(), e.commit_summary.clone())).collect()
}

fn pair(id: &str, summary: &str) -> (String, String) {
    (id.to_string(), summary.to_string())
}

#[test]
fn new_index_is_empty() {
    let index = Index::new();
    assert!(index.trust().is_empty());
    assert!(index.distrust().is_empty());
    assert!(index.known_ids().is_empty());
    assert!(!index.contains_commit_id("abc".to_string()));
}

#[test]
fn default_index_is_empty() {
    let index = Index::default();
    assert!(index.trust().is_empty());
    assert!(index.distrust().is_empty());
    assert!(index.known_ids().is_empty());
}

#[test]
fn insert_trust_stages_in_order_of_id() {
    let mut index = Index::new();
    let mut batch = vec![entry("c3", "third"), entry("a1", "first"), entry("b2", "second")];
    index.insert(&mut batch, &TrustOrDistrust::Trust);
    assert!(batch.is_empty());
    assert_eq!(
        pairs(index.trust()),
        vec![pair("a1", "first"), pair("b2", "second"), pair("c3", "third")]
    );
    assert!(index.distrust().is_empty());
    assert_eq!(index.known_ids(), &vec!["a1".to_string(), "b2".to_string(), "c3".to_string()]);
}

#[test]
fn insert_distrust_stages_in_distrust() {
    let mut index = Index::new();
    let mut batch = vec![entry("b2", "second"), entry("a1", "first")];
    index.insert(&mut batch, &TrustOrDistrust::Distrust);
    assert!(index.trust().is_empty());
    assert_eq!(pairs(index.distrust()), vec![pair("a1", "first"), pair("b2", "second")]);
    assert!(index.contains_commit_id("a1".to_string()));
    assert!(index.contains_commit_id("b2".to_string()));
}

#[test]
fn sets_stay_disjoint_after_each_insert() {
    let mut index = Index::new();
    let steps: Vec<(Vec<IndexEntry>, TrustOrDistrust)> = vec![
        (vec![entry("a", "1"), entry("b", "2")], TrustOrDistrust::Trust),
        (vec![entry("b", "2"), entry("c", "3")], TrustOrDistrust::Distrust),
        (vec![entry("c", "3"), entry("a", "1")], TrustOrDistrust::Trust),
        (vec![entry("a", "1"), entry("b", "2"), entry("c", "3")], TrustOrDistrust::Distrust),
        (vec![entry("d", "4")], TrustOrDistrust::Trust),
    ];
    for (mut batch, status) in steps {
        index.insert(&mut batch, &status);
        for trusted in index.trust() {
            assert!(index.distrust().iter().all(|d| d.commit_id != trusted.commit_id));
        }
        let mut union: Vec<String> = ids(index.trust());
        union.extend(ids(index.distrust()));
        union.sort();
        assert_eq!(&union, index.known_ids());
    }
    assert_eq!(ids(index.trust()), vec!["d".to_string()]);
    assert_eq!(ids(index.distrust()), vec!["a".to_string(), "b".to_string(), "c".to_string()]);
}

#[test]
fn trust_then_distrust_leaves_commit_distrusted() {
    let mut index = Index::new();
    index.insert(&mut vec![entry("x", "fix")], &TrustOrDistrust::Trust);
    assert_eq!(ids(index.trust()), vec!["x".to_string()]);
    index.insert(&mut vec![entry("x", "fix")], &TrustOrDistrust::Distrust);
    assert!(index.trust().is_empty());
    assert_eq!(pairs(index.distrust()), vec![pair("x", "fix")]);
    assert!(index.contains_commit_id("x".to_string()));
}

#[test]
fn distrust_then_trust_leaves_commit_trusted() {
    let mut index = Index::new();
    index.insert(&mut vec![entry("x", "fix"), entry("y", "other")], &TrustOrDistrust::Distrust);
    index.insert(&mut vec![entry("x", "fix")], &TrustOrDistrust::Trust);
    assert_eq!(pairs(index.trust()), vec![pair("x", "fix")]);
    assert_eq!(pairs(index.distrust()), vec![pair("y", "other")]);
}

#[test]
fn same_commit_twice_gives_one_record() {
    let mut index = Index::new();
    index.insert(&mut vec![entry("x", "first wording")], &TrustOrDistrust::Trust);
    index.insert(&mut vec![entry("x", "second wording")], &TrustOrDistrust::Trust);
    assert_eq!(pairs(index.trust()), vec![pair("x", "second wording")]);
    assert!(index.distrust().is_empty());
    assert_eq!(index.known_ids(), &vec!["x".to_string()]);
}

#[test]
fn same_commit_twice_in_one_batch_gives_one_record() {
    let mut index = Index::new();
    let mut batch = vec![entry("x", "early"), entry("y", "other"), entry("x", "late")];
    index.insert(&mut batch, &TrustOrDistrust::Distrust);
    assert_eq!(pairs(index.distrust()), vec![pair("x", "late"), pair("y", "other")]);
}

#[test]
fn same_commit_twice_with_same_summary_changes_nothing() {
    let mut index = Index::new();
    index.insert(&mut vec![entry("x", "s")], &TrustOrDistrust::Distrust);
    index.insert(&mut vec![entry("x", "s")], &TrustOrDistrust::Distrust);
    assert_eq!(pairs(index.distrust()), vec![pair("x", "s")]);
    assert!(index.trust().is_empty());
}

#[test]
fn batch_members_are_contained_and_others_are_not() {
    let mut index = Index::new();
    let n = 40;
    let mut batch: Vec<IndexEntry> =
        (0..n).map(|i| entry(&format!("{:040x}", i * 7919 + 1), "s")).collect();
    index.insert(&mut batch, &TrustOrDistrust::Trust);
    assert_eq!(index.trust().len(), n);
    for i in 0..n {
        assert!(index.contains_commit_id(format!("{:040x}", i * 7919 + 1)));
    }
    for i in 0..n {
        assert!(!index.contains_commit_id(format!("{:040x}", i * 7919 + 2)));
    }
    assert!(!index.contains_commit_id(String::new()));
}

#[test]
fn empty_batch_changes_nothing() {
    let mut index = Index::new();
    index.insert(&mut vec![entry("a", "1")], &TrustOrDistrust::Trust);
    index.insert(&mut Vec::new(), &TrustOrDistrust::Distrust);
    assert_eq!(pairs(index.trust()), vec![pair("a", "1")]);
    assert!(index.distrust().is_empty());
}

#[test]
fn identifiers_are_ordered_by_code_point() {
    let mut index = Index::new();
    let mut batch =
        vec![entry("b", ""), entry("ab", ""), entry("a", ""), entry("B", ""), entry("é", ""), entry("", "")];
    index.insert(&mut batch, &TrustOrDistrust::Trust);
    let mut expected: Vec<String> =
        vec!["b", "ab", "a", "B", "é", ""].into_iter().map(|s| s.to_string()).collect();
    expected.sort();
    assert_eq!(ids(index.trust()), expected);
    assert_eq!(index.known_ids(), &expected);
}

fn round_trip(index: &Index) -> Index {
    Index::load(Some(index.dump()))
}

fn assert_same(a: &Index, b: &Index) {
    assert_eq!(a, b);
    assert_eq!(pairs(a.trust()), pairs(b.trust()));
    assert_eq!(pairs(a.distrust()), pairs(b.distrust()));
    assert_eq!(a.known_ids(), b.known_ids());
}

#[test]
fn dump_then_load_gives_the_same_index_when_empty() {
    let index = Index::new();
    assert_same(&round_trip(&index), &index);
}

#[test]
fn dump_then_load_gives_the_same_index_with_one_entry_each() {
    let mut index = Index::new();
    index.insert(&mut vec![entry("a", "first")], &TrustOrDistrust::Trust);
    index.insert(&mut vec![entry("b", "second")], &TrustOrDistrust::Distrust);
    let back = round_trip(&index);
    assert_same(&back, &index);
    assert_eq!(pairs(back.trust()), vec![pair("a", "first")]);
    assert_eq!(pairs(back.distrust()), vec![pair("b", "second")]);
}

#[test]
fn dump_then_load_gives_the_same_index_with_many_entries() {
    let mut index = Index::new();
    let mut trusted: Vec<IndexEntry> =
        (0..25).map(|i| entry(&format!("t{:03}", i), &format!("trusted {}", i))).collect();
    let mut distrusted: Vec<IndexEntry> =
        (0..25).map(|i| entry(&format!("d{:03}", i), &format!("distrusted {}", i))).collect();
    index.insert(&mut trusted, &TrustOrDistrust::Trust);
    index.insert(&mut distrusted, &TrustOrDistrust::Distrust);
    let back = round_trip(&index);
    assert_same(&back, &index);
    assert_eq!(back.trust().len(), 25);
    assert_eq!(back.distrust().len(), 25);
}

#[test]
fn load_of_nothing_is_the_empty_index() {
    let index = Index::load(None);
    assert!(index.trust().is_empty());
    assert!(index.distrust().is_empty());
    assert!(index.known_ids().is_empty());
}

#[test]
fn load_sorts_and_collapses_records() {
    let records = IndexRecords {
        trust: vec![entry("b", "2"), entry("a", "1"), entry("b", "2 again")],
        distrust: vec![entry("z", "26"), entry("c", "3")],
        all_commit_ids: Vec::new(),
    };
    let index = Index::load(Some(records));
    assert_eq!(pairs(index.trust()), vec![pair("a", "1"), pair("b", "2 again")]);
    assert_eq!(pairs(index.distrust()), vec![pair("c", "3"), pair("z", "26")]);
    assert_eq!(
        index.known_ids(),
        &vec!["a".to_string(), "b".to_string(), "c".to_string(), "z".to_string()]
    );
}

#[test]
fn load_of_contradictory_contents_is_the_empty_index() {
    let records = IndexRecords {
        trust: vec![entry("a", "1"), entry("b", "2")],
        distrust: vec![entry("b", "2")],
        all_commit_ids: vec!["a".to_string(), "b".to_string()],
    };
    let index = Index::load(Some(records));
    assert!(index.trust().is_empty());
    assert!(index.distrust().is_empty());
    assert!(index.known_ids().is_empty());
}

#[test]
fn dump_lists_records_and_known_ids() {
    let mut index = Index::new();
    index.insert(&mut vec![entry("b", "2"), entry("a", "1")], &TrustOrDistrust::Trust);
    index.insert(&mut vec![entry("c", "3")], &TrustOrDistrust::Distrust);
    let records = index.dump();
    assert_eq!(pairs(&records.trust), vec![pair("a", "1"), pair("b", "2")]);
    assert_eq!(pairs(&records.distrust), vec![pair("c", "3")]);
    assert_eq!(records.all_commit_ids, vec!["a".to_string(), "b".to_string(), "c".to_string()]);
}

#[test]
fn entry_clone_keeps_both_fields() {
    let e = entry("abc", "summary");
    let c = e.clone();
    assert_eq!(c.commit_id, "abc");
    assert_eq!(c.commit_summary, "summary");
}

#[test]
fn indexes_are_equal_where_they_record_the_same() {
    let mut a = Index::new();
    let mut b = Index::new();
    assert_eq!(a, b);
    a.insert(&mut vec![entry("x", "1"), entry("y", "2")], &TrustOrDistrust::Trust);
    assert_ne!(a, b);
    b.insert(&mut vec![entry("y", "2")], &TrustOrDistrust::Trust);
    b.insert(&mut vec![entry("x", "1")], &TrustOrDistrust::Trust);
    assert_eq!(a, b);
    b.insert(&mut vec![entry("x", "other words")], &TrustOrDistrust::Trust);
    assert_ne!(a, b);
    b.insert(&mut vec![entry("x", "1")], &TrustOrDistrust::Distrust);
    assert_ne!(a, b);
    a.insert(&mut vec![entry("x", "1")], &TrustOrDistrust::Distrust);
    assert_eq!(a, b);
}

#[test]
fn records_are_equal_where_both_fields_are() {
    assert_eq!(entry("a", "s"), entry("a", "s"));
    assert_ne!(entry("a", "s"), entry("a", "t"));
    assert_ne!(entry("a", "s"), entry("b", "s"));
}

fn yaml_of(records: &Vec<IndexEntry>) -> serde_yaml::Value {
    serde_yaml::Value::Sequence(
        records
            .iter()
            .map(|e| {
                let mut m = serde_yaml::Mapping::new();
                m.insert("commit_id".into(), e.commit_id.clone().into());
                m.insert("commit_summary".into(), e.commit_summary.clone().into());
                serde_yaml::Value::Mapping(m)
            })
            .collect(),
    )
}

fn write_out(index: &Index) -> String {
    let records = index.dump();
    let mut document = serde_yaml::Mapping::new();
    document.insert("trust".into(), yaml_of(&records.trust));
    document.insert("distrust".into(), yaml_of(&records.distrust));
    document.insert(
        "all_commit_ids".into(),
        serde_yaml::Value::Sequence(records.all_commit_ids.iter().map(|id| id.clone().into()).collect()),
    );
    serde_yaml::to_string(&serde_yaml::Value::Mapping(document)).unwrap()
}

fn records_of(value: &serde_yaml::Value) -> Option<Vec<IndexEntry>> {
    value
        .as_sequence()?
        .iter()
        .map(|item| {
            Some(IndexEntry::new(
                item.get("commit_id")?.as_str()?.to_string(),
                item.get("commit_summary")?.as_str()?.to_string(),
            ))
        })
        .collect()
}

fn read_in(text: &str) -> Index {
    let parsed: Option<serde_yaml::Value> = serde_yaml::from_str(text).ok();
    let records = parsed.and_then(|document| {
        Some(IndexRecords {
            trust: records_of(document.get("trust")?)?,
            distrust: records_of(document.get("distrust")?)?,
            all_commit_ids: document
                .get("all_commit_ids")?
                .as_sequence()?
                .iter()
                .map(|id| id.as_str().map(|s| s.to_string()))
                .collect::<Option<Vec<String>>>()?,
        })
    });
    Index::load(records)
}

#[test]
fn index_survives_being_written_as_text_and_read_back() {
    let empty = Index::new();
    assert_eq!(read_in(&write_out(&empty)), empty);

    let mut one = Index::new();
    one.insert(&mut vec![entry("0a1b", "Fix: the parser")], &TrustOrDistrust::Trust);
    one.insert(&mut vec![entry("ffee", "")], &TrustOrDistrust::Distrust);
    assert_eq!(read_in(&write_out(&one)), one);

    let mut many = Index::new();
    let mut trusted: Vec<IndexEntry> =
        (0..30).map(|i| entry(&format!("{:040x}", i * 31 + 5), &format!("change #{}: \"quoted\" - text", i))).collect();
    let mut distrusted: Vec<IndexEntry> =
        (0..30).map(|i| entry(&format!("{:040x}", i * 31 + 6), &format!("  spaced {} \u{e9}", i))).collect();
    many.insert(&mut trusted, &TrustOrDistrust::Trust);
    many.insert(&mut distrusted, &TrustOrDistrust::Distrust);
    assert_eq!(read_in(&write_out(&many)), many);
    assert_eq!(many.trust().len(), 30);
}

#[test]
fn text_that_is_no_index_is_read_as_the_empty_index() {
    for text in ["", "trust: [", "just a string", "- a\n- b\n", "trust: []\n", "trust: 1\ndistrust: 2\nall_commit_ids: 3\n", "{{{"] {
        assert_eq!(read_in(text), Index::new(), "{:?}", text);
    }
}

#[test]
fn records_are_ordered_by_identifier_alone() {
    assert!(entry("a", "z") < entry("b", "a"));
    assert!(entry("b", "a") > entry("a", "z"));
    assert!(!(entry("a", "1") < entry("a", "2")));
    assert!(!(entry("a", "1") > entry("a", "2")));
    assert_eq!(entry("a", "1").partial_cmp(&entry("a", "2")), Some(std::cmp::Ordering::Equal));
    assert_eq!(entry("a", "1").partial_cmp(&entry("ab", "")), Some(std::cmp::Ordering::Less));
    assert_eq!(entry("b", "").partial_cmp(&entry("ab", "")), Some(std::cmp::Ordering::Greater));
    assert!(entry("a", "1") <= entry("a", "2"));
    assert!(entry("a", "1") >= entry("a", "2"));
}
