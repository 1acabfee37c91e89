use serde_json::Value;
use traits::games::{canvas_apply, canvas_get, CanvasRequest, Entry, Field, GamesKind};
use traits::json::{read_stored, JsonDoc, JsonPart, Stored};
use traits::store::{
    games_from_store, games_to_store, index_from_store, index_to_store, member_of_doc, meta_from_text,
    revisions_in, turns_from_store, turns_to_store, write_meta, write_snapshot, write_turn, Root,
};

fn serde_text(raw: &str) -> String {
    serde_json::to_string(&serde_json::from_str::<Value>(raw).unwrap()).unwrap()
}

fn obj(pairs: &[(&str, Value)]) -> Value {
    let mut m = serde_json::Map::new();
    for (k, v) in pairs {
        m.insert(k.to_string(), v.clone());
    }
    Value::Object(m)
}

fn st(t: &str) -> Value {
    Value::String(t.to_string())
}

fn some(t: &str) -> Option<String> {
    Some(t.to_string())
}

#[test]
fn missing_or_unreadable_games_are_the_default() {
    for stored in [None, some("not json"), some("{\"a\":")] {
        let (c, root) = games_from_store(stored);
        assert!(matches!(root, Root::Object));
        assert!(matches!(c.active, Field::Null));
        assert!(matches!(c.kind, GamesKind::Object));
        assert!(c.games.is_empty());
        assert_eq!(games_to_store(&c, &root), "{\"active\":null,\"games\":{}}");
    }
}

#[test]
fn games_document_reads_and_writes_back() {
    let raw = r#"{ "meta": true, "games": {"b": 5, "a": {"name": "A", "content": "x", "extra": [1, 2]}}, "active": "a" }"#;
    let (c, root) = games_from_store(some(raw));
    assert!(matches!(&c.active, Field::Str(a) if a == "a"));
    assert_eq!(c.games.len(), 2);
    assert_eq!(c.games[0].0, "a");
    match &c.games[0].1 {
        Entry::Game(g) => {
            assert!(matches!(&g.name, Field::Str(n) if n == "A"));
            assert!(matches!(&g.content, Field::Str(n) if n == "x"));
            assert!(matches!(g.scope, Field::Absent));
            assert_eq!(g.rest, vec![("extra".to_string(), "[1,2]".to_string())]);
        },
        _ => panic!("expected a game"),
    }
    assert!(matches!(&c.games[1].1, Entry::Value(Field::Raw(t)) if t == "5"));
    assert_eq!(c.rest, vec![("meta".to_string(), "true".to_string())]);
    assert_eq!(games_to_store(&c, &root), serde_text(raw));
}

#[test]
fn set_then_get_through_the_store() {
    let (mut c, root) = games_from_store(None);
    canvas_apply(&mut c, CanvasRequest::SetContent { content: "<p>\"hi\"</p>\n".to_string() }, "T", "abcd1234");
    let text = games_to_store(&c, &root);
    let (c2, _) = games_from_store(Some(text.clone()));
    assert_eq!(canvas_get(&c2).0, "<p>\"hi\"</p>\n");
    assert_eq!(canvas_get(&c2).1, "abcd1234");
    assert_eq!(text, serde_text(&text));
}

#[test]
fn roots_that_are_not_objects() {
    let (c, root) = games_from_store(some("null"));
    assert!(matches!(root, Root::Null));
    assert_eq!(games_to_store(&c, &root), "null");
    let (c, root) = games_from_store(some(" [1, \"x\"] "));
    assert!(matches!(&root, Root::Other(t) if t == "[1,\"x\"]"));
    assert_eq!(games_to_store(&c, &root), "[1,\"x\"]");
    let (c, root) = games_from_store(some("{\"games\": \"odd\"}"));
    assert!(matches!(&c.kind, GamesKind::Other(t) if t == "\"odd\""));
    assert_eq!(games_to_store(&c, &root), "{\"games\":\"odd\"}");
}

#[test]
fn strings_are_escaped_as_serde_does() {
    let s = "a\"b\\c\n\r\t\u{8}\u{c}\u{1}\u{1f}é/\u{7f}";
    let raw = serde_json::to_string(&obj(&[("active", st(s)), ("games", obj(&[]))])).unwrap();
    let (c, root) = games_from_store(Some(raw.clone()));
    assert_eq!(games_to_store(&c, &root), raw);
}

#[test]
fn transcript_store() {
    assert!(turns_from_store(None).is_empty());
    assert!(turns_from_store(some("{\"a\":1}")).is_empty());
    assert!(turns_from_store(some("broken")).is_empty());
    let turns = turns_from_store(some("[{\"role\":\"user\",\"text\":\"hi\"}, 3]"));
    assert_eq!(turns, vec!["{\"role\":\"user\",\"text\":\"hi\"}".to_string(), "3".to_string()]);
    let t = write_turn("assistant", "a \"quote\"", "2025-01-01T00:00:00Z");
    assert_eq!(
        t,
        obj(&[("role", st("assistant")), ("text", st("a \"quote\"")), ("ts", st("2025-01-01T00:00:00Z"))]).to_string()
    );
    assert_eq!(turns_to_store(&vec![t.clone(), "3".to_string()]), format!("[{},3]", t));
    assert_eq!(turns_to_store(&vec![]), "[]");
}

#[test]
fn revision_index_store() {
    let raw = r#"{"g": [{"id": "r1", "path": "p1", "length": 3}, {"id": 7}], "h": "odd"}"#;
    let idx = index_from_store(some(raw));
    assert_eq!(idx.len(), 2);
    let revs = revisions_in(&idx, "g");
    assert_eq!(revs.len(), 2);
    let m0 = meta_from_text(&revs[0]);
    assert_eq!(m0.id, some("r1"));
    assert_eq!(m0.path, some("p1"));
    let m1 = meta_from_text(&revs[1]);
    assert_eq!(m1.id, None);
    assert!(revisions_in(&idx, "h").is_empty());
    assert!(revisions_in(&idx, "zz").is_empty());
    assert!(index_from_store(some("[1]")).is_empty());
    let meta = write_meta("g-S-1", "N", "1.0", "2025-01-01T00:00:00Z", 12, 2, "canvas/revisions/g-S-1.json");
    assert_eq!(
        meta,
        obj(&[
            ("id", st("g-S-1")),
            ("name", st("N")),
            ("version", st("1.0")),
            ("created", st("2025-01-01T00:00:00Z")),
            ("length", Value::from(12)),
            ("resource_count", Value::from(2)),
            ("path", st("canvas/revisions/g-S-1.json")),
        ])
        .to_string()
    );
    let out = index_to_store(&idx, "g", &vec![meta.clone()]);
    assert_eq!(out, format!("{{\"g\":[{}],\"h\":\"odd\"}}", meta));
    assert_eq!(index_to_store(&vec![], "a/b", &vec![]), "{\"a/b\":[]}");
}

#[test]
fn snapshots_write_and_read() {
    let res = vec![("z.png".to_string(), "Z".to_string()), ("a.png".to_string(), "A".to_string())];
    let snap = write_snapshot("id1", "g", "N", "", "T", "<html>", &res);
    assert_eq!(
        snap,
        obj(&[
            ("id", st("id1")),
            ("game_key", st("g")),
            ("name", st("N")),
            ("version", st("")),
            ("created", st("T")),
            ("content", st("<html>")),
            ("resources", obj(&[("z.png", st("Z")), ("a.png", st("A"))])),
        ])
        .to_string()
    );
    match read_stored(Some(snap)) {
        Stored::Doc(d) => {
            assert!(matches!(member_of_doc(&d, "content"), JsonPart::Str(c) if c == "<html>"));
            assert!(matches!(member_of_doc(&d, "game_key"), JsonPart::Str(c) if c == "g"));
            assert!(matches!(member_of_doc(&d, "resources"), JsonPart::Other(t) if t == "{\"a.png\":\"A\",\"z.png\":\"Z\"}"));
            assert!(matches!(member_of_doc(&d, "missing"), JsonPart::Null));
        },
        _ => panic!("expected a document"),
    }
    assert!(matches!(read_stored(None), Stored::Missing));
    assert!(matches!(read_stored(some("{")), Stored::Invalid));
    assert!(matches!(member_of_doc(&JsonDoc::Scalar(JsonPart::Null), "content"), JsonPart::Null));
}
