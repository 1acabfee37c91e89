use traits::args::Arg;
use traits::games::{
    canvas_apply, canvas_get, ensure_internal_active, game_ref, mirrored, parse_canvas_request,
    CanvasReply, CanvasRequest, Collection, Entry, Field, Game, GamesKind,
};

const TS: &str = "2025-01-01T00:00:00Z";
const STAMP: &str = "250101000000";

fn text(t: &str) -> Field {
    Field::Str(t.to_string())
}

fn game(name: &str, content: &str, scope: Option<&str>, updated: &str) -> Game {
    Game {
        name: text(name),
        content: text(content),
        scope: match scope {
            Some(x) => text(x),
            None => Field::Absent,
        },
        scope_alt: Field::Absent,
        owner: Field::Absent,
        created: Field::Absent,
        updated: text(updated),
        version: Field::Absent,
        game_id: Field::Absent,
        checksum: Field::Absent,
        forked_from: Field::Absent,
        rest: Vec::new(),
    }
}

/// A collection with the given games, which must be listed in key order.
fn collection(active: Option<&str>, games: Vec<(&str, Game)>) -> Collection {
    Collection {
        active: match active {
            Some(a) => text(a),
            None => Field::Null,
        },
        kind: GamesKind::Object,
        games: games.into_iter().map(|(k, g)| (k.to_string(), Entry::Game(g))).collect(),
        rest: Vec::new(),
    }
}

fn str_of(f: &Field) -> Option<&str> {
    match f {
        Field::Str(t) => Some(t.as_str()),
        _ => None,
    }
}

fn active_of(c: &Collection) -> Option<&str> {
    str_of(&c.active)
}

fn content_at<'a>(c: &'a Collection, id: &str) -> Option<&'a str> {
    game_ref(c, id).and_then(|g| str_of(&g.content))
}

fn set(c: &mut Collection, content: &str) -> CanvasReply {
    canvas_apply(c, CanvasRequest::SetContent { content: content.to_string() }, TS, STAMP).reply
}

fn get_content(c: &Collection) -> String {
    canvas_get(c).0
}

#[test]
fn set_on_an_empty_collection_makes_a_game() {
    let mut c = collection(None, vec![]);
    let out = canvas_apply(&mut c, CanvasRequest::SetContent { content: "<h1>hi</h1>".to_string() }, TS, STAMP);
    assert!(out.write);
    assert!(!out.drop_page);
    match out.reply {
        CanvasReply::SetContent { length, game_id } => {
            assert_eq!(length, 11);
            assert_eq!(game_id, STAMP);
        },
        _ => panic!("expected set"),
    }
    assert_eq!(active_of(&c), Some(STAMP));
    let (content, id, name, version) = canvas_get(&c);
    assert_eq!(content, "<h1>hi</h1>");
    assert_eq!(id, STAMP);
    assert_eq!(name, "untitled");
    assert_eq!(version, "");
    let g = game_ref(&c, STAMP).unwrap();
    assert_eq!(str_of(&g.scope), Some("internal"));
    assert_eq!(str_of(&g.scope_alt), Some("internal"));
    assert_eq!(str_of(&g.owner), Some("local"));
    assert_eq!(str_of(&g.created), Some(TS));
    assert_eq!(mirrored(&c), Some("<h1>hi</h1>".to_string()));
}

#[test]
fn set_then_get_reads_back() {
    let mut c = collection(Some("a"), vec![("a", game("A", "old", None, "t1")), ("b", game("B", "bb", None, "t2"))]);
    set(&mut c, "new text");
    assert_eq!(get_content(&c), "new text");
    assert_eq!(active_of(&c), Some("a"));
    assert_eq!(content_at(&c, "b"), Some("bb"));
    assert_eq!(str_of(&game_ref(&c, "a").unwrap().updated), Some(TS));
}

#[test]
fn set_on_an_external_game_forks_it() {
    let mut c = collection(Some("ext1"), vec![("ext1", game("Ext", "X", Some("external"), "t"))]);
    set(&mut c, "Y");
    let fork_id = format!("{}f", STAMP);
    assert_eq!(active_of(&c), Some(fork_id.as_str()));
    assert_eq!(content_at(&c, &fork_id), Some("Y"));
    assert_eq!(content_at(&c, "ext1"), Some("X"));
    let f = game_ref(&c, &fork_id).unwrap();
    assert_eq!(str_of(&f.forked_from), Some("ext1"));
    assert_eq!(str_of(&f.scope), Some("internal"));
    assert_eq!(str_of(&f.name), Some("Ext"));
    assert_eq!(str_of(&f.created), Some(TS));
}

#[test]
fn fork_takes_the_first_free_id() {
    let taken = format!("{}f", STAMP);
    let mut c = collection(
        Some("ext1"),
        vec![(taken.as_str(), game("T", "t", None, "t")), ("ext1", game("Ext", "X", None, "t"))],
    );
    if let Some((_, Entry::Game(g))) = c.games.iter_mut().find(|(k, _)| k == "ext1") {
        g.scope_alt = text("external");
    }
    let got = ensure_internal_active(&mut c, TS, STAMP);
    let expected = format!("{}f2", STAMP);
    assert_eq!(got, Some(expected.clone()));
    assert_eq!(active_of(&c), Some(expected.as_str()));
    assert_eq!(content_at(&c, &expected), Some("X"));
    assert_eq!(content_at(&c, &taken), Some("t"));
}

#[test]
fn fork_of_an_internal_game_changes_nothing() {
    let mut c = collection(Some("a"), vec![("a", game("A", "x", Some("internal"), "t"))]);
    match canvas_apply(&mut c, CanvasRequest::Fork, TS, STAMP) {
        out => {
            assert!(out.write);
            match out.reply {
                CanvasReply::Fork { forked, from, game_id, name } => {
                    assert!(!forked);
                    assert_eq!(from, "a");
                    assert_eq!(game_id, "a");
                    assert_eq!(name, "A");
                },
                _ => panic!("expected fork"),
            }
        },
    }
    let mut none = collection(None, vec![]);
    let out = canvas_apply(&mut none, CanvasRequest::Fork, TS, STAMP);
    assert!(!out.write);
    match out.reply {
        CanvasReply::Fork { forked, from, game_id, name } => {
            assert!(!forked);
            assert_eq!(from, "");
            assert_eq!(game_id, "");
            assert_eq!(name, "");
        },
        _ => panic!("expected fork"),
    }
}

#[test]
fn append_adds_to_the_active_content() {
    let mut c = collection(Some("a"), vec![("a", game("A", "ab", None, "t"))]);
    let out = canvas_apply(&mut c, CanvasRequest::Append { content: "cd".to_string() }, TS, STAMP);
    match out.reply {
        CanvasReply::Append { length } => assert_eq!(length, 4),
        _ => panic!("expected append"),
    }
    assert_eq!(get_content(&c), "abcd");
    let mut empty = collection(None, vec![]);
    canvas_apply(&mut empty, CanvasRequest::Append { content: "é".to_string() }, TS, STAMP);
    assert_eq!(get_content(&empty), "é");
    assert_eq!(active_of(&empty), Some(STAMP));
}

#[test]
fn clear_empties_the_active_game() {
    let mut c = collection(Some("a"), vec![("a", game("A", "ab", None, "t"))]);
    let out = canvas_apply(&mut c, CanvasRequest::Clear, TS, STAMP);
    assert!(out.write);
    assert!(out.drop_page);
    assert_eq!(get_content(&c), "");
    let mut none = collection(Some("zz"), vec![("a", game("A", "ab", None, "t"))]);
    let out2 = canvas_apply(&mut none, CanvasRequest::Clear, TS, STAMP);
    assert!(!out2.drop_page);
    assert_eq!(content_at(&none, "a"), Some("ab"));
}

#[test]
fn new_makes_an_empty_active_game() {
    let mut c = collection(Some("a"), vec![("a", game("A", "ab", None, "t"))]);
    let out = canvas_apply(&mut c, CanvasRequest::New { name: "Space".to_string(), version: "1.0".to_string() }, TS, STAMP);
    match out.reply {
        CanvasReply::New { game_id, name } => {
            assert_eq!(game_id, STAMP);
            assert_eq!(name, "Space");
        },
        _ => panic!("expected new"),
    }
    let (content, id, name, version) = canvas_get(&c);
    assert_eq!(content, "");
    assert_eq!(id, STAMP);
    assert_eq!(name, "Space");
    assert_eq!(version, "1.0");
    assert_eq!(content_at(&c, "a"), Some("ab"));
}

#[test]
fn games_are_listed_newest_first() {
    let mut c = collection(
        Some("a"),
        vec![
            ("a", game("A", "aaa", None, "2025-01-02")),
            ("b", game("B", "b", Some("external"), "2025-01-03")),
            ("c", game("C", "", None, "2025-01-01")),
            ("d", game("D", "dd", None, "2025-01-02")),
        ],
    );
    let out = canvas_apply(&mut c, CanvasRequest::Games, TS, STAMP);
    assert!(!out.write);
    match out.reply {
        CanvasReply::Games { games, active } => {
            assert_eq!(active, "a");
            let ids: Vec<&str> = games.iter().map(|g| g.id.as_str()).collect();
            assert_eq!(ids, vec!["b", "a", "d", "c"]);
            let mut sorted = ids.clone();
            sorted.sort();
            assert_eq!(sorted, vec!["a", "b", "c", "d"]);
            assert!(games[1].active);
            assert!(!games[0].active);
            assert_eq!(games[0].scope, "external");
            assert_eq!(games[1].scope, "internal");
            assert_eq!(games[1].owner, "local");
            assert_eq!(games[1].length, 3);
            assert_eq!(games[1].name, "A");
        },
        _ => panic!("expected games"),
    }
}

#[test]
fn activate_switches_the_active_game() {
    let mut c = collection(Some("a"), vec![("a", game("A", "x", None, "t")), ("b", game("B", "yy", None, "t"))]);
    let out = canvas_apply(&mut c, CanvasRequest::Activate { id: "b".to_string() }, TS, STAMP);
    assert!(out.write);
    match out.reply {
        CanvasReply::Activate { game_id, name, content, length, .. } => {
            assert_eq!(game_id, "b");
            assert_eq!(name, "B");
            assert_eq!(content, "yy");
            assert_eq!(length, 2);
        },
        _ => panic!("expected activate"),
    }
    assert_eq!(get_content(&c), "yy");
    let miss = canvas_apply(&mut c, CanvasRequest::Activate { id: "zz".to_string() }, TS, STAMP);
    assert!(!miss.write);
    match miss.reply {
        CanvasReply::Error(e) => assert_eq!(e, "Game not found: zz"),
        _ => panic!("expected an error"),
    }
    assert_eq!(active_of(&c), Some("b"));
}

#[test]
fn rename_and_save() {
    let mut c = collection(Some("a"), vec![("a", game("A", "x", None, "t")), ("b", game("B", "y", None, "t"))]);
    let out = canvas_apply(&mut c, CanvasRequest::Rename { name: "New".to_string(), target: String::new() }, TS, STAMP);
    match out.reply {
        CanvasReply::Rename { game_id, name } => {
            assert_eq!(game_id, "a");
            assert_eq!(name, "New");
        },
        _ => panic!("expected rename"),
    }
    canvas_apply(&mut c, CanvasRequest::Rename { name: "Bee".to_string(), target: "b".to_string() }, TS, STAMP);
    assert_eq!(str_of(&game_ref(&c, "b").unwrap().name), Some("Bee"));
    let miss = canvas_apply(&mut c, CanvasRequest::Rename { name: "X".to_string(), target: "zz".to_string() }, TS, STAMP);
    assert!(!miss.write);
    assert!(matches!(miss.reply, CanvasReply::Error(e) if e == "No active game to rename"));
    let mut none = collection(None, vec![]);
    let save = canvas_apply(&mut none, CanvasRequest::Save { name: "X".to_string() }, TS, STAMP);
    assert!(matches!(save.reply, CanvasReply::Error(e) if e == "No active game"));
    let ok = canvas_apply(&mut c, CanvasRequest::Save { name: "Saved".to_string() }, TS, STAMP);
    assert!(matches!(ok.reply, CanvasReply::Save { game_id, name } if game_id == "a" && name == "Saved"));
}

#[test]
fn delete_moves_the_active_game() {
    let mut c = collection(Some("a"), vec![("a", game("A", "x", None, "t")), ("b", game("B", "y", None, "t"))]);
    let out = canvas_apply(&mut c, CanvasRequest::Delete { id: "a".to_string() }, TS, STAMP);
    assert!(matches!(out.reply, CanvasReply::Delete { deleted } if deleted == "a"));
    assert!(game_ref(&c, "a").is_none());
    assert_eq!(active_of(&c), Some("b"));
    canvas_apply(&mut c, CanvasRequest::Delete { id: "b".to_string() }, TS, STAMP);
    assert!(matches!(c.active, Field::Null));
    assert!(c.games.is_empty());
    let mut d = collection(Some("b"), vec![("a", game("A", "x", None, "t")), ("b", game("B", "y", None, "t"))]);
    canvas_apply(&mut d, CanvasRequest::Delete { id: "a".to_string() }, TS, STAMP);
    assert_eq!(active_of(&d), Some("b"));
    assert_eq!(content_at(&d, "b"), Some("y"));
}

#[test]
fn path_and_get_write_nothing() {
    let mut c = collection(Some("a"), vec![("a", game("A", "x", None, "t"))]);
    let out = canvas_apply(&mut c, CanvasRequest::Path, TS, STAMP);
    assert!(!out.write);
    assert!(matches!(out.reply, CanvasReply::Path));
    let got = canvas_apply(&mut c, CanvasRequest::Get, TS, STAMP);
    assert!(!got.write);
    assert!(matches!(got.reply, CanvasReply::Get { content, length, .. } if content == "x" && length == 1));
}

fn s(t: &str) -> Arg {
    Arg::Str(t.to_string())
}

#[test]
fn canvas_requests() {
    assert!(matches!(parse_canvas_request(&vec![]), Ok(CanvasRequest::Get)));
    assert!(matches!(parse_canvas_request(&vec![s("load"), s("x")]), Ok(CanvasRequest::Activate { id }) if id == "x"));
    assert!(matches!(parse_canvas_request(&vec![s("projects")]), Ok(CanvasRequest::Games)));
    assert!(matches!(parse_canvas_request(&vec![s("set")]), Ok(CanvasRequest::SetContent { content }) if content.is_empty()));
    assert!(matches!(
        parse_canvas_request(&vec![s("new")]),
        Ok(CanvasRequest::New { name, version }) if name == "untitled" && version.is_empty()
    ));
    assert!(matches!(
        parse_canvas_request(&vec![s("rename"), s("N"), s("id")]),
        Ok(CanvasRequest::Rename { name, target }) if name == "N" && target == "id"
    ));
    assert_eq!(parse_canvas_request(&vec![s("delete_project")]).err(), Some("Game ID required".to_string()));
    assert_eq!(parse_canvas_request(&vec![s("activate"), s("")]).err(), Some("Game ID required".to_string()));
    assert_eq!(parse_canvas_request(&vec![s("rename")]).err(), Some("Name required".to_string()));
    assert_eq!(parse_canvas_request(&vec![s("save"), Arg::UInt(1)]).err(), Some("Name required".to_string()));
    assert_eq!(
        parse_canvas_request(&vec![s("bogus")]).err(),
        Some("Unknown action: bogus. Use: set, append, get, clear, new, games, activate, fork, rename, delete".to_string())
    );
}
