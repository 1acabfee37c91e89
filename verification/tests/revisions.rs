use traits::args::Arg;
use traits::history::{append_turn, parse_history_request, recent_start, recent_turns, HistoryRequest, MAX_STORED};
use traits::json::{JsonTop, Member};
use traits::vcs::{
    apply_commit, keep_marked, newest_first, checkout_error, dedup_candidate, parse_resources, resources_from_parsed, parse_vcs_request, plan_commit, plan_delete,
    revision_file, CommitPlan, RevisionMeta, VcsRequest,
};
use traits::vfs::{file_not_found, filter_by_prefix, parse_vfs_request, stat_not_found, VfsRequest};

fn s(t: &str) -> Arg {
    Arg::Str(t.to_string())
}

fn strings(v: &[&str]) -> Vec<String> {
    v.iter().map(|x| x.to_string()).collect()
}

fn rev(id: &str, path: Option<&str>) -> RevisionMeta {
    RevisionMeta { id: Some(id.to_string()), path: path.map(|p| p.to_string()) }
}

#[test]
fn history_requests() {
    match parse_history_request(&vec![s("append"), s("assistant"), s("  hi  ")]) {
        Ok(HistoryRequest::Append { role, text }) => {
            assert_eq!(role, "assistant");
            assert_eq!(text, "hi");
        },
        _ => panic!("expected append"),
    }
    match parse_history_request(&vec![s("append"), Arg::Other, s("yo")]) {
        Ok(HistoryRequest::Append { role, .. }) => assert_eq!(role, "user"),
        _ => panic!("expected append"),
    }
    match parse_history_request(&vec![s("get")]) {
        Ok(HistoryRequest::Get { n }) => assert_eq!(n, 20),
        _ => panic!("expected get"),
    }
    match parse_history_request(&vec![s("get"), Arg::UInt(500)]) {
        Ok(HistoryRequest::Get { n }) => assert_eq!(n, 200),
        _ => panic!("expected get"),
    }
    match parse_history_request(&vec![s("get"), Arg::UInt(3)]) {
        Ok(HistoryRequest::Get { n }) => assert_eq!(n, 3),
        _ => panic!("expected get"),
    }
    assert!(matches!(parse_history_request(&vec![s("clear")]), Ok(HistoryRequest::Clear)));
}

#[test]
fn history_request_errors() {
    let err = |args: Vec<Arg>| match parse_history_request(&args) {
        Err(e) => e,
        Ok(_) => panic!("expected an error"),
    };
    assert_eq!(err(vec![s("append")]), "text required");
    assert_eq!(err(vec![s("append"), s("user"), s("   ")]), "text required");
    assert_eq!(err(vec![s("pop")]), "Unknown action 'pop'. Use append, get, clear.");
    assert_eq!(err(vec![]), "Unknown action ''. Use append, get, clear.");
}

#[test]
fn transcript_keeps_the_newest_turns() {
    let mut turns: Vec<u32> = (0..200).collect();
    append_turn(&mut turns, 200);
    assert_eq!(turns.len(), MAX_STORED);
    assert_eq!(turns[0], 1);
    assert_eq!(turns[199], 200);
    let mut short: Vec<u32> = vec![1, 2];
    append_turn(&mut short, 3);
    assert_eq!(short, vec![1, 2, 3]);
}

#[test]
fn recent_window() {
    assert_eq!(recent_start(10, 20), 0);
    assert_eq!(recent_start(30, 20), 10);
    assert_eq!(recent_start(0, 0), 0);
}

#[test]
fn resources_keep_storable_string_entries() {
    let raw = r#"{"img/a.png":"data","/abs":"x","../up":"x","canvas/app.html":"x","canvas/games.json":"x","empty":"","num":5," sp.png ":"y"}"#;
    let got = parse_resources(raw);
    let pair = |a: &str, b: &str| (a.to_string(), b.to_string());
    assert_eq!(got, vec![pair("sp.png", "y"), pair("img/a.png", "data")]);
}

#[test]
fn resources_of_non_objects_are_empty() {
    for raw in ["{}", "  ", "", "not json", "[1,2]", "\"text\""] {
        assert!(parse_resources(raw).is_empty());
    }
}

#[test]
fn resources_repeated_after_trim_keep_the_last_value() {
    let got = parse_resources(r#"{"a.png":"one"," a.png":"two"}"#);
    assert_eq!(got, vec![(" a.png".trim().to_string(), "one".to_string())]);
}

#[test]
fn vcs_requests() {
    match parse_vcs_request(&vec![s("commit"), s("My Game"), s("<html>")]) {
        Ok(VcsRequest::Commit { game_key, content, name, version, resources }) => {
            assert_eq!(game_key, "my-game");
            assert_eq!(content, "<html>");
            assert_eq!(name, "untitled");
            assert_eq!(version, "");
            assert!(resources.is_empty());
        },
        _ => panic!("expected commit"),
    }
    match parse_vcs_request(&vec![s("commit"), s("g"), s("c"), s("Name"), s("2"), s(r#"{"x.png":"d"}"#)]) {
        Ok(VcsRequest::Commit { name, version, resources, .. }) => {
            assert_eq!(name, "Name");
            assert_eq!(version, "2");
            assert_eq!(resources, vec![("x.png".to_string(), "d".to_string())]);
        },
        _ => panic!("expected commit"),
    }
    match parse_vcs_request(&vec![s("list"), s("G")]) {
        Ok(VcsRequest::List { game_key }) => assert_eq!(game_key, "g"),
        _ => panic!("expected list"),
    }
    match parse_vcs_request(&vec![s("checkout"), s("g"), s("r1")]) {
        Ok(VcsRequest::Checkout { game_key, rev_id }) => {
            assert_eq!(game_key, "g");
            assert_eq!(rev_id, "r1");
        },
        _ => panic!("expected checkout"),
    }
    match parse_vcs_request(&vec![s("delete"), s("g"), s("r1")]) {
        Ok(VcsRequest::Delete { rev_id, .. }) => assert_eq!(rev_id, "r1"),
        _ => panic!("expected delete"),
    }
}

#[test]
fn vcs_request_errors() {
    let err = |args: Vec<Arg>| match parse_vcs_request(&args) {
        Err(e) => e,
        Ok(_) => panic!("expected an error"),
    };
    assert_eq!(err(vec![s("commit"), s("!!!"), s("x")]), "game_key required");
    assert_eq!(err(vec![s("commit"), s("g"), s("")]), "content required");
    assert_eq!(err(vec![]), "game_key required");
    assert_eq!(err(vec![s("checkout"), s("g")]), "revision id required");
    assert_eq!(err(vec![s("delete"), s("g"), s("")]), "revision id required");
    assert_eq!(err(vec![s("undo"), s("")]), "Unknown action. Use: commit, list, checkout, delete");
}

#[test]
fn commit_numbers_the_new_revision() {
    match plan_commit("team/game", "abc", &vec![], None, "250101120000") {
        CommitPlan::Store(st) => {
            assert_eq!(st.id, "team__game-250101120000-1");
            assert_eq!(st.path, "canvas/revisions/team__game-250101120000-1.json");
            assert_eq!(st.length, 3);
            assert_eq!(st.drop_count, 0);
            assert!(st.delete_paths.is_empty());
        },
        _ => panic!("expected a new revision"),
    }
    let revs = vec![rev("r1", Some("p1")), rev("r2", Some("p2"))];
    match plan_commit("g", "héllo", &revs, Some("other".to_string()), "S") {
        CommitPlan::Store(st) => {
            assert_eq!(st.id, "g-S-3");
            assert_eq!(st.length, 6);
        },
        _ => panic!("expected a new revision"),
    }
}

#[test]
fn commit_of_the_same_content_is_a_duplicate() {
    let revs = vec![rev("r0", Some("p0")), rev("r1", Some("p1"))];
    match plan_commit("g", "abc", &revs, Some("abc".to_string()), "S") {
        CommitPlan::Duplicate { id } => assert_eq!(id, "r1"),
        _ => panic!("expected a duplicate"),
    }
    // the last revision has no id: nothing to compare against
    let no_id = vec![RevisionMeta { id: None, path: None }];
    assert!(matches!(plan_commit("g", "abc", &no_id, Some("abc".to_string()), "S"), CommitPlan::Store(_)));
}

#[test]
fn commit_drops_the_oldest_past_the_limit() {
    let revs: Vec<RevisionMeta> = (0..40).map(|i| rev(&format!("r{}", i), Some(&format!("p{}", i)))).collect();
    match plan_commit("g", "new", &revs, None, "S") {
        CommitPlan::Store(st) => {
            assert_eq!(st.id, "g-S-41");
            assert_eq!(st.drop_count, 1);
            assert_eq!(st.delete_paths, strings(&["p0"]));
            // 40 kept: 39 old ones and the new one
            assert_eq!(revs.len() - st.drop_count + 1, 40);
        },
        _ => panic!("expected a new revision"),
    }
    let mut pathless: Vec<RevisionMeta> = (0..41).map(|i| rev(&format!("r{}", i), None)).collect();
    pathless[1].path = Some("keep-me".to_string());
    match plan_commit("g", "new", &pathless, None, "S") {
        CommitPlan::Store(st) => {
            assert_eq!(st.drop_count, 2);
            assert_eq!(st.delete_paths, strings(&["keep-me"]));
        },
        _ => panic!("expected a new revision"),
    }
}

#[test]
fn delete_plans() {
    let revs = vec![rev("a", Some("p_a")), rev("b", Some("p_b")), rev("a", Some("p_a2"))];
    let plan = plan_delete(&revs, "a").ok().unwrap();
    assert_eq!(plan.keep, vec![false, true, false]);
    assert_eq!(plan.remaining, 1);
    assert_eq!(plan.path, "p_a2");
    assert_eq!(plan_delete(&revs, "zz").err(), Some("revision not found".to_string()));
    let no_path = vec![rev("a", None)];
    assert_eq!(plan_delete(&no_path, "a").err(), Some("revision not found".to_string()));
}

#[test]
fn checkout_errors() {
    assert_eq!(checkout_error(false, true, None, "g"), Some("revision not found".to_string()));
    assert_eq!(checkout_error(true, false, None, "g"), Some("invalid snapshot".to_string()));
    assert_eq!(
        checkout_error(true, true, Some("other".to_string()), "g"),
        Some("revision belongs to different game".to_string())
    );
    assert_eq!(checkout_error(true, true, None, "g"), Some("revision belongs to different game".to_string()));
    assert_eq!(checkout_error(true, true, Some("g".to_string()), "g"), None);
}

#[test]
fn revision_files() {
    assert_eq!(revision_file("x"), "canvas/revisions/x.json");
    assert_eq!(dedup_candidate(&vec![]), None);
    assert_eq!(dedup_candidate(&vec![rev("a", None), rev("b", None)]), Some("b".to_string()));
}

#[test]
fn vfs_requests() {
    assert!(matches!(parse_vfs_request(&vec![]), Ok(VfsRequest::List { prefix }) if prefix.is_empty()));
    match parse_vfs_request(&vec![s("write"), s("a.txt"), s("hi")]) {
        Ok(VfsRequest::Write { path, content }) => {
            assert_eq!(path, "a.txt");
            assert_eq!(content, "hi");
        },
        _ => panic!("expected write"),
    }
    match parse_vfs_request(&vec![s("list"), s("docs/")]) {
        Ok(VfsRequest::List { prefix }) => assert_eq!(prefix, "docs/"),
        _ => panic!("expected list"),
    }
    match parse_vfs_request(&vec![s("stat"), s("f")]) {
        Ok(VfsRequest::Stat { path }) => assert_eq!(path, "f"),
        _ => panic!("expected stat"),
    }
    for action in ["read", "write", "append", "delete", "exists", "is_dir", "mkdir", "stat"] {
        assert_eq!(parse_vfs_request(&vec![s(action)]).err(), Some("Path required".to_string()));
    }
    assert_eq!(
        parse_vfs_request(&vec![s("rm"), s("x")]).err(),
        Some("Unknown action: rm. Use: read, write, append, list, list_dirs, delete, exists, is_dir, mkdir, stat".to_string())
    );
}

#[test]
fn listing_by_prefix() {
    let all = strings(&["docs/a", "docs2/b", "x/docs"]);
    assert_eq!(filter_by_prefix(&all, "docs/"), strings(&["docs/a", "docs2/b"]));
    assert_eq!(filter_by_prefix(&all, "docs///"), strings(&["docs/a", "docs2/b"]));
    assert_eq!(filter_by_prefix(&all, ""), all);
    assert_eq!(filter_by_prefix(&all, "zzz"), Vec::<String>::new());
    for f in filter_by_prefix(&all, "x") {
        assert!(f.starts_with('x'));
    }
    assert_eq!(file_not_found("a"), "File not found: a");
    assert_eq!(stat_not_found("a"), "Not found: a");
}

#[test]
fn resources_of_parsed_members() {
    let doc: Result<JsonTop, String> = Ok(JsonTop::Object(vec![
        (" a/b.png ".to_string(), Member::Str("x".to_string())),
        ("c.png".to_string(), Member::List(vec![Some("y".to_string())])),
        ("d/../e".to_string(), Member::Str("z".to_string())),
        ("f.txt".to_string(), Member::Other),
        ("a/b.png".to_string(), Member::Str("w".to_string())),
    ]));
    let pair = |a: &str, b: &str| (a.to_string(), b.to_string());
    assert_eq!(resources_from_parsed(&doc), vec![pair("a/b.png", "w")]);
    assert!(resources_from_parsed(&Ok(JsonTop::NotObject)).is_empty());
    assert!(resources_from_parsed(&Err("bad".to_string())).is_empty());
}

#[test]
fn committing_the_same_content_twice_stores_it_once() {
    let mut revs = vec![rev("r1", Some("p1"))];
    let first = match plan_commit("g", "body", &revs, Some("older".to_string()), "S") {
        CommitPlan::Store(st) => st,
        _ => panic!("expected a new revision"),
    };
    revs.push(rev(&first.id, Some(&first.path)));
    match plan_commit("g", "body", &revs, Some("body".to_string()), "T") {
        CommitPlan::Duplicate { id } => assert_eq!(id, "g-S-2"),
        _ => panic!("expected a duplicate"),
    }
}

#[test]
fn revision_list_updates() {
    let mut revs = vec![1, 2, 3];
    apply_commit(&mut revs, 4, 0);
    assert_eq!(revs, vec![1, 2, 3, 4]);
    apply_commit(&mut revs, 5, 2);
    assert_eq!(revs, vec![3, 4, 5]);
    assert_eq!(keep_marked(vec!["a", "b", "c"], &vec![false, true, false]), vec!["b"]);
    assert_eq!(newest_first(vec![1, 2, 3]), vec![3, 2, 1]);
    assert_eq!(newest_first(Vec::<u8>::new()), Vec::<u8>::new());
}

#[test]
fn commit_then_list_keeps_forty() {
    let mut revs: Vec<RevisionMeta> = (0..40).map(|i| rev(&format!("r{}", i), Some(&format!("p{}", i)))).collect();
    let store = match plan_commit("g", "x", &revs, None, "S") {
        CommitPlan::Store(st) => st,
        _ => panic!("expected a new revision"),
    };
    apply_commit(&mut revs, rev(&store.id, Some(&store.path)), store.drop_count);
    assert_eq!(revs.len(), 40);
    assert_eq!(revs[0].id, Some("r1".to_string()));
    assert_eq!(revs[39].id, Some("g-S-41".to_string()));
    let listed = newest_first(revs);
    assert_eq!(listed[0].id, Some("g-S-41".to_string()));
}

#[test]
fn recent_turns_and_clear() {
    assert_eq!(recent_turns(vec![1, 2, 3, 4], 2), vec![3, 4]);
    assert_eq!(recent_turns(vec![1, 2], 20), vec![1, 2]);
    assert_eq!(recent_turns(Vec::<u8>::new(), 20), Vec::<u8>::new());
}
