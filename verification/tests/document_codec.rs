use nodenote::{GraphInfo, GraphRegistry};
use nodenote::{add_to_document, list_from_document, remove_from_document, touch_document,
    validate_document};

fn entry(name: &str, path: &str, created: &str, opened: &str, validated: Option<bool>) -> GraphInfo {
    GraphInfo {
        name: name.to_string(),
        path: path.to_string(),
        created_at: created.to_string(),
        last_opened: opened.to_string(),
        validated,
    }
}

#[test]
fn document_roundtrip_preserves_entries() {
    let reg = GraphRegistry {
        entries: vec![
            entry("Work", "/tmp/ws", "t1", "t2", None),
            entry("Play", "/home/u", "t3", "t4", Some(true)),
            entry("Old", "/gone", "t5", "t6", Some(false)),
        ],
    };
    let doc = reg.to_document();
    let back = GraphRegistry::from_document(doc.as_str());
    assert_eq!(back.len(), 3);
    for i in 0..3 {
        assert_eq!(back.entries[i].name, reg.entries[i].name);
        assert_eq!(back.entries[i].path, reg.entries[i].path);
        assert_eq!(back.entries[i].created_at, reg.entries[i].created_at);
        assert_eq!(back.entries[i].last_opened, reg.entries[i].last_opened);
        assert_eq!(back.entries[i].validated, reg.entries[i].validated);
    }
}

#[test]
fn document_roundtrip_escapes_quotes_and_backslashes() {
    let reg = GraphRegistry {
        entries: vec![entry("a\"b\\c", "C:\\tmp\\\"x\"", "t1", "t2", None)],
    };
    let doc = reg.to_document();
    let back = GraphRegistry::from_document(doc.as_str());
    assert_eq!(back.len(), 1);
    assert_eq!(back.entries[0].name, "a\"b\\c");
    assert_eq!(back.entries[0].path, "C:\\tmp\\\"x\"");
}

#[test]
fn empty_registry_document_text() {
    let reg = GraphRegistry::new();
    assert_eq!(reg.to_document(), "{\"graphs\":[]}");
}

#[test]
fn document_is_valid_json_with_expected_shape() {
    let reg = GraphRegistry {
        entries: vec![entry("Wo\"rk", "/tmp/ws", "2024-01-01T00:00:00+00:00", "t2", Some(true))],
    };
    let doc = reg.to_document();
    let v: serde_json::Value = serde_json::from_str(&doc).unwrap();
    let graphs = v["graphs"].as_array().unwrap();
    assert_eq!(graphs.len(), 1);
    assert_eq!(graphs[0]["name"].as_str().unwrap(), "Wo\"rk");
    assert_eq!(graphs[0]["path"].as_str().unwrap(), "/tmp/ws");
    assert_eq!(
        graphs[0]["created_at"].as_str().unwrap(),
        "2024-01-01T00:00:00+00:00"
    );
    assert_eq!(graphs[0]["last_opened"].as_str().unwrap(), "t2");
    assert_eq!(graphs[0]["validated"].as_bool().unwrap(), true);
}

#[test]
fn unparseable_document_reads_as_empty_registry() {
    assert_eq!(GraphRegistry::from_document("not json at all").len(), 0);
    assert_eq!(GraphRegistry::from_document("").len(), 0);
    assert_eq!(GraphRegistry::from_document("{\"graphs\":[}").len(), 0);
}

#[test]
fn document_roundtrip_keeps_unicode_text() {
    let reg = GraphRegistry {
        entries: vec![entry("Grüße 🌍", "/tmp/wörk", "t1", "t2", None)],
    };
    let doc = reg.to_document();
    let back = GraphRegistry::from_document(doc.as_str());
    assert_eq!(back.entries[0].name, "Grüße 🌍");
    assert_eq!(back.entries[0].path, "/tmp/wörk");
    let v: serde_json::Value = serde_json::from_str(&doc).unwrap();
    assert_eq!(v["graphs"][0]["name"].as_str().unwrap(), "Grüße 🌍");
}

#[test]
fn remove_through_document_drops_every_duplicate() {
    let doc = add_to_document(None, "/tmp/ws", "Work", "t0");
    let doc2 = add_to_document(Some(doc.as_str()), "/tmp/ws", "Work", "t1");
    let doc3 = add_to_document(Some(doc2.as_str()), "/tmp/ws", "Play", "t2");
    let cleaned = remove_from_document(Some(doc3.as_str()), "/tmp/ws", "Work").unwrap();
    let reg = GraphRegistry::from_document(cleaned.as_str());
    assert_eq!(reg.len(), 1);
    assert_eq!(reg.entries[0].name, "Play");
}

#[test]
fn touch_through_document_updates_first_duplicate_only() {
    let doc = add_to_document(None, "/tmp/ws", "Work", "t0");
    let doc2 = add_to_document(Some(doc.as_str()), "/tmp/ws", "Work", "t1");
    let touched = touch_document(Some(doc2.as_str()), "/tmp/ws", "Work", "t9").unwrap();
    let reg = GraphRegistry::from_document(touched.as_str());
    assert_eq!(reg.entries[0].last_opened, "t9");
    assert_eq!(reg.entries[1].last_opened, "t1");
}

#[test]
fn list_from_absent_document_is_not_found() {
    match list_from_document(None) {
        Err(nodenote::Error::NotFound) => {}
        _ => panic!("expected NotFound"),
    }
}

#[test]
fn list_from_unparseable_document_is_parse_error() {
    match list_from_document(Some("garbage")) {
        Err(nodenote::Error::ParseError) => {}
        _ => panic!("expected ParseError"),
    }
}

#[test]
fn add_to_absent_document_creates_registry() {
    let doc = add_to_document(None, "/tmp/ws", "Work", "t0");
    let reg = GraphRegistry::from_document(doc.as_str());
    assert_eq!(reg.len(), 1);
    assert_eq!(reg.entries[0].name, "Work");
    assert_eq!(reg.entries[0].created_at, "t0");
    assert_eq!(reg.entries[0].last_opened, "t0");
}

#[test]
fn add_to_document_now_stamps_a_real_timestamp() {
    let doc = nodenote::add_to_document_now(None, "/tmp/ws", "Work");
    let reg = GraphRegistry::from_document(doc.as_str());
    assert_eq!(reg.len(), 1);
    assert!(!reg.entries[0].created_at.is_empty());
    assert_eq!(reg.entries[0].created_at, reg.entries[0].last_opened);
}

#[test]
fn touch_document_pipeline() {
    let doc = add_to_document(None, "/tmp/ws", "Work", "t0");
    let doc2 = touch_document(Some(doc.as_str()), "/tmp/ws", "Work", "t9").unwrap();
    let reg = GraphRegistry::from_document(doc2.as_str());
    assert_eq!(reg.entries[0].created_at, "t0");
    assert_eq!(reg.entries[0].last_opened, "t9");
    match touch_document(None, "/tmp/ws", "Work", "t9") {
        Err(nodenote::Error::NotFound) => {}
        _ => panic!("expected NotFound"),
    }
}

#[test]
fn remove_from_document_pipeline() {
    let doc = add_to_document(None, "/tmp/ws", "Work", "t0");
    let doc2 = add_to_document(Some(doc.as_str()), "/tmp/ws", "Play", "t1");
    let doc3 = remove_from_document(Some(doc2.as_str()), "/tmp/ws", "Work").unwrap();
    let reg = GraphRegistry::from_document(doc3.as_str());
    assert_eq!(reg.len(), 1);
    assert_eq!(reg.entries[0].name, "Play");
    match remove_from_document(None, "/tmp/ws", "Work") {
        Err(nodenote::Error::NotFound) => {}
        _ => panic!("expected NotFound"),
    }
}

#[test]
fn create_then_repair_scenario_empties_listing() {
    let doc = add_to_document(None, "/tmp/ws", "Work", "t0");
    let listed = list_from_document(Some(doc.as_str())).unwrap();
    assert_eq!(listed.len(), 1);
    assert_eq!(listed.entries[0].name, "Work");
    // The workspace directory disappears from disk: repair prunes the entry.
    let repaired = validate_document(Some(doc.as_str()), &vec![false], true).unwrap();
    let reg = GraphRegistry::from_document(repaired.as_str());
    assert_eq!(reg.len(), 0);
    let listed_again = list_from_document(Some(repaired.as_str())).unwrap();
    assert_eq!(listed_again.len(), 0);
}

#[test]
fn validate_document_without_repair_stamps_only() {
    let doc = add_to_document(None, "/tmp/ws", "Work", "t0");
    let stamped = validate_document(Some(doc.as_str()), &vec![false], false).unwrap();
    let reg = GraphRegistry::from_document(stamped.as_str());
    assert_eq!(reg.len(), 1);
    assert_eq!(reg.entries[0].validated, Some(false));
}
