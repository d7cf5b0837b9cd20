use garden_archive::document::load_document;
use garden_archive::entry::{EntryPayload, EntryUpdate, SaveResult, StoreError};
use garden_archive::store::{backup_file_name, document_file_name, image_file_name, import_file_name, ArchiveStore};

fn draft(title: &str) -> EntryPayload {
    EntryPayload {
        id: None,
        title: title.to_string(),
        figure: "fig".to_string(),
        moment: "mom".to_string(),
        narrative: "nar".to_string(),
        keywords: vec!["k1".to_string(), "k2".to_string()],
        image_base64: None,
        date_created: "2024-01-01T00:00:00+00:00".to_string(),
        date_modified: None,
        image_url: None,
    }
}

fn with_id(id: &str, title: &str) -> EntryPayload {
    let mut e = draft(title);
    e.id = Some(id.to_string());
    e
}

fn no_changes() -> EntryUpdate {
    EntryUpdate { title: None, figure: None, moment: None, narrative: None, keywords: None }
}

fn store_with(ids: &[&str]) -> ArchiveStore {
    let mut s = ArchiveStore::new();
    s.import_entries(ids.iter().map(|i| with_id(i, "t")).collect());
    s
}

#[test]
fn first_memory_scenario() {
    let mut s = ArchiveStore::new();
    let d = draft("My First Memory!");
    let plan = s
        .plan_save(&d, "0b6b1c8e-2f1a-4c1e-9a55-6d3f0d1e2a3b".to_string(), "20240101_120000", "now".to_string())
        .unwrap();
    assert_eq!(plan.file_name, "My_First_Memory__20240101_120000.json");
    assert_eq!(plan.id, "0b6b1c8e-2f1a-4c1e-9a55-6d3f0d1e2a3b");
    assert_eq!(plan.record.id, Some(plan.id.clone()));
    assert!(s.commit_save(&plan));
    let id = plan.id.clone();

    let changes = EntryUpdate { title: Some("Updated".to_string()), ..no_changes() };
    let written = s.apply_update(&id, &changes, "later".to_string()).unwrap();
    assert_eq!(written.file_name, "My_First_Memory__20240101_120000.json");
    let got = s.get_entry(&id).unwrap();
    assert_eq!(got.title, "Updated");
    assert_eq!(got.figure, "fig");
    assert_eq!(got.moment, "mom");
    assert_eq!(got.narrative, "nar");
    assert_eq!(got.date_modified, Some("later".to_string()));

    let removed = s.delete_entry(&id).unwrap();
    assert_eq!(removed.file_name, "My_First_Memory__20240101_120000.json");
    assert!(s.get_entry(&id).is_none());
    assert_eq!(s.len(), 0);
}

#[test]
fn prepare_save_assigns_fresh_uuid() {
    let mut s = store_with(&["a", "b"]);
    let d = draft("Fresh");
    let plan = s.prepare_save(&d).unwrap();
    assert_eq!(plan.id.len(), 36);
    assert_eq!(plan.id.matches('-').count(), 4);
    assert!(s.get_entry(&plan.id).is_none());
    assert!(plan.file_name.starts_with("Fresh_"));
    assert!(plan.file_name.ends_with(".json"));
    assert!(plan.record.date_modified.is_some());
    assert!(s.commit_save(&plan));
    let got = s.get_entry(&plan.id).unwrap();
    assert_eq!(got.id, Some(plan.id.clone()));
    assert_eq!(got.title, d.title);
    assert_eq!(got.figure, d.figure);
    assert_eq!(got.moment, d.moment);
    assert_eq!(got.narrative, d.narrative);
    assert_eq!(got.keywords, d.keywords);
    assert_eq!(got.date_created, d.date_created);
    assert_eq!(s.len(), 3);
}

#[test]
fn two_saves_get_different_ids() {
    let mut s = ArchiveStore::new();
    let p1 = s.prepare_save(&draft("x")).unwrap();
    assert!(s.commit_save(&p1));
    let p2 = s.prepare_save(&draft("x")).unwrap();
    assert_ne!(p1.id, p2.id);
    assert!(s.commit_save(&p2));
    assert_eq!(s.len(), 2);
}

#[test]
fn save_keeps_own_id() {
    let s = ArchiveStore::new();
    let plan = s.plan_save(&with_id("mine", "t"), "fresh".to_string(), "st", "m".to_string()).unwrap();
    assert_eq!(plan.id, "mine");
}

#[test]
fn save_refuses_held_id() {
    let s = store_with(&["dup"]);
    let r = s.plan_save(&with_id("dup", "t"), "fresh".to_string(), "st", "m".to_string());
    assert_eq!(r, Err(StoreError::DuplicateId));
    let r = s.plan_save(&draft("t"), "dup".to_string(), "st", "m".to_string());
    assert_eq!(r, Err(StoreError::DuplicateId));
}

#[test]
fn save_refuses_empty_id() {
    let s = ArchiveStore::new();
    let r = s.plan_save(&draft("t"), String::new(), "st", "m".to_string());
    assert_eq!(r, Err(StoreError::EmptyId));
    let r = s.plan_save(&with_id("", "t"), "fresh".to_string(), "st", "m".to_string());
    assert_eq!(r, Err(StoreError::EmptyId));
}

#[test]
fn save_drops_raw_image_and_plans_image_file() {
    let s = ArchiveStore::new();
    let mut d = draft("pic");
    d.image_base64 = Some("data:image/png;base64,aGVsbG8=".to_string());
    let plan = s.plan_save(&d, "id1".to_string(), "st", "m".to_string()).unwrap();
    assert_eq!(plan.record.image_base64, None);
    let img = plan.image.unwrap();
    assert_eq!(img.file_name, "id1.png");
    assert_eq!(img.bytes, Some(b"hello".to_vec()));
}

#[test]
fn save_with_bad_image_still_plans_document() {
    let s = ArchiveStore::new();
    let mut d = draft("pic");
    d.image_base64 = Some("%%%".to_string());
    let plan = s.plan_save(&d, "id1".to_string(), "st", "m".to_string()).unwrap();
    assert_eq!(plan.image.unwrap().bytes, None);
    assert_eq!(plan.file_name, "pic_st.json");
}

#[test]
fn save_without_image_plans_none() {
    let s = ArchiveStore::new();
    let plan = s.plan_save(&draft("p"), "id1".to_string(), "st", "m".to_string()).unwrap();
    assert!(plan.image.is_none());
    assert_eq!(plan.record.date_modified, Some("m".to_string()));
}

#[test]
fn commit_twice_adds_once() {
    let mut s = ArchiveStore::new();
    let plan = s.plan_save(&draft("p"), "id1".to_string(), "st", "m".to_string()).unwrap();
    assert!(s.commit_save(&plan));
    assert!(!s.commit_save(&plan));
    assert_eq!(s.len(), 1);
}

#[test]
fn update_missing_id_changes_nothing() {
    let mut s = store_with(&["a", "b"]);
    let before = s.get_all_entries();
    let changes = EntryUpdate { title: Some("x".to_string()), ..no_changes() };
    assert!(s.apply_update("zzz", &changes, "m".to_string()).is_none());
    assert!(s.update_entry("zzz", &changes).is_none());
    assert_eq!(s.len(), 2);
    assert_eq!(s.get_all_entries(), before);
    let r = SaveResult::failed("Entry not found".to_string());
    assert!(!r.success);
}

#[test]
fn update_applies_only_given_fields() {
    let mut s = store_with(&["a"]);
    let changes = EntryUpdate {
        title: None,
        figure: Some("F2".to_string()),
        moment: None,
        narrative: Some("N2".to_string()),
        keywords: Some(vec!["z".to_string()]),
    };
    let w = s.update_entry("a", &changes).unwrap();
    assert_eq!(w.file_name, "a.json");
    let e = s.get_entry("a").unwrap();
    assert_eq!(e.title, "t");
    assert_eq!(e.figure, "F2");
    assert_eq!(e.moment, "mom");
    assert_eq!(e.narrative, "N2");
    assert_eq!(e.keywords, vec!["z".to_string()]);
    assert!(e.date_modified.is_some());
    assert_eq!(e.date_created, "2024-01-01T00:00:00+00:00");
    assert_eq!(w.entry, e);
}

#[test]
fn delete_existing_removes_from_list() {
    let mut s = store_with(&["a", "b", "c"]);
    let removed = s.delete_entry("b").unwrap();
    assert_eq!(removed.entry.id, Some("b".to_string()));
    let ids: Vec<Option<String>> = s.get_all_entries().into_iter().map(|e| e.id).collect();
    assert_eq!(ids, vec![Some("a".to_string()), Some("c".to_string())]);
    assert!(s.delete_entry("b").is_none());
}

#[test]
fn delete_missing_is_noop() {
    let mut s = store_with(&["a"]);
    assert!(s.delete_entry("nope").is_none());
    assert_eq!(s.len(), 1);
}

#[test]
fn deleted_id_is_not_resurrected_by_update() {
    let mut s = store_with(&["a"]);
    s.delete_entry("a");
    assert!(s.update_entry("a", &no_changes()).is_none());
    assert_eq!(s.len(), 0);
}

#[test]
fn import_one_known_one_new() {
    let mut s = store_with(&["a"]);
    let before = s.get_entry("a").unwrap();
    s.import_entries(vec![with_id("a", "other title"), with_id("b", "new")]);
    assert_eq!(s.len(), 2);
    assert_eq!(s.get_entry("a").unwrap(), before);
    assert_eq!(s.get_entry("b").unwrap().title, "new");
}

#[test]
fn import_dedups_within_batch_and_missing_ids() {
    let mut s = ArchiveStore::new();
    s.import_entries(vec![with_id("x", "1"), with_id("x", "2"), draft("n1"), draft("n2")]);
    assert_eq!(s.len(), 2);
    assert_eq!(s.get_entry("x").unwrap().title, "1");
    assert!(s.contains_id(&None));
}

#[test]
fn import_names_records_by_id() {
    assert_eq!(import_file_name(&Some("abc".to_string())), "abc.json");
    let mut s = ArchiveStore::new();
    s.import_entries(vec![with_id("abc", "t")]);
    let w = s.delete_entry("abc").unwrap();
    assert_eq!(w.file_name, "abc.json");
}

#[test]
fn file_name_helpers() {
    assert_eq!(document_file_name("Hi there", "20200202_020202"), "Hi_there_20200202_020202.json");
    assert_eq!(image_file_name("id9"), "id9.png");
    let b = backup_file_name("a b");
    assert!(b.starts_with("a_b_"));
    assert!(b.ends_with(".json"));
}

fn document_text(e: &EntryPayload) -> String {
    let mut m = serde_json::Map::new();
    if let Some(id) = &e.id {
        m.insert("id".to_string(), serde_json::Value::String(id.clone()));
    }
    m.insert("title".to_string(), serde_json::Value::String(e.title.clone()));
    m.insert("figure".to_string(), serde_json::Value::String(e.figure.clone()));
    m.insert("moment".to_string(), serde_json::Value::String(e.moment.clone()));
    m.insert("narrative".to_string(), serde_json::Value::String(e.narrative.clone()));
    let kw = e.keywords.iter().map(|k| serde_json::Value::String(k.clone())).collect();
    m.insert("keywords".to_string(), serde_json::Value::Array(kw));
    m.insert("date_created".to_string(), serde_json::Value::String(e.date_created.clone()));
    if let Some(d) = &e.date_modified {
        m.insert("date_modified".to_string(), serde_json::Value::String(d.clone()));
    }
    serde_json::to_string_pretty(&serde_json::Value::Object(m)).unwrap()
}

#[test]
fn created_record_survives_reload() {
    let mut s = ArchiveStore::new();
    let plan = s.prepare_save(&draft("Round Trip")).unwrap();
    assert!(s.commit_save(&plan));
    let text = document_text(&plan.record);
    let back = load_document(&text).unwrap();
    assert_eq!(back.id, plan.record.id);
    assert_eq!(back.title, plan.record.title);
    assert_eq!(back.figure, plan.record.figure);
    assert_eq!(back.moment, plan.record.moment);
    assert_eq!(back.narrative, plan.record.narrative);
    assert_eq!(back.keywords, plan.record.keywords);
    assert_eq!(back.date_created, plan.record.date_created);

    let reloaded = ArchiveStore::from_documents(vec![
        (plan.file_name.clone(), text.clone()),
        ("notes.txt".to_string(), text.clone()),
        ("broken.json".to_string(), "{".to_string()),
        ("copy.json".to_string(), text),
    ]);
    assert_eq!(reloaded.len(), 1);
    let e = reloaded.get_entry(&plan.id).unwrap();
    assert_eq!(e.title, "Round Trip");
    assert_eq!(e.keywords, plan.record.keywords);
}

#[test]
fn one_document_directory_gives_expected_entry() {
    let s = ArchiveStore::from_documents(vec![(
        "a.json".to_string(),
        r#"{"title":"A","created_at":"2024-01-01T00:00:00Z","keywords":["x",1]}"#.to_string(),
    )]);
    let all = s.get_all_entries();
    let expected = EntryPayload {
        id: None,
        title: "A".to_string(),
        figure: String::new(),
        moment: String::new(),
        narrative: String::new(),
        keywords: vec!["x".to_string()],
        image_base64: None,
        date_created: "2024-01-01T00:00:00Z".to_string(),
        date_modified: None,
        image_url: None,
    };
    assert_eq!(all, vec![expected]);
}

#[test]
fn documents_without_id_are_all_loaded() {
    let s = ArchiveStore::from_documents(vec![
        ("one.json".to_string(), r#"{"title":"1"}"#.to_string()),
        ("two.json".to_string(), r#"{"title":"2"}"#.to_string()),
        ("three.json".to_string(), r#"{"id":"x","title":"3"}"#.to_string()),
        ("four.json".to_string(), r#"{"id":"x","title":"4"}"#.to_string()),
        ("skip.txt".to_string(), r#"{"title":"5"}"#.to_string()),
    ]);
    let titles: Vec<String> = s.get_all_entries().into_iter().map(|e| e.title).collect();
    assert_eq!(titles, vec!["1".to_string(), "2".to_string(), "3".to_string()]);
}

#[test]
fn import_drops_raw_image() {
    let mut s = ArchiveStore::new();
    let mut e = with_id("img", "t");
    e.image_base64 = Some("aGk=".to_string());
    s.import_entries(vec![e]);
    assert_eq!(s.get_entry("img").unwrap().image_base64, None);
}

#[test]
fn fresh_id_and_stamp_have_their_shapes() {
    let s = ArchiveStore::new();
    let plan = s.prepare_save(&draft("My First Memory!")).unwrap();
    let id: Vec<char> = plan.id.chars().collect();
    assert_eq!(id.len(), 36);
    for (i, c) in id.iter().enumerate() {
        if i == 8 || i == 13 || i == 18 || i == 23 {
            assert_eq!(*c, '-');
        } else {
            assert!(c.is_ascii_digit() || ('a'..='f').contains(c));
        }
    }
    let name = plan.file_name.clone();
    assert!(name.starts_with("My_First_Memory__"));
    let stamp: Vec<char> = name["My_First_Memory__".len()..name.len() - ".json".len()].chars().collect();
    assert_eq!(stamp.len(), 15);
    assert_eq!(stamp[8], '_');
    assert!(stamp.iter().enumerate().all(|(i, c)| i == 8 || c.is_ascii_digit()));
}
