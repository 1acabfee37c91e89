//! Revision history for canvas games: keys, resource maps, and the decisions
//! of commit, checkout and delete. At most `MAX_REVISIONS_PER_GAME`
//! revisions are kept per game, the oldest dropped first.

use vstd::prelude::*;
use crate::args::{Arg, arg_str_or, get_str_or};
use crate::json::{JsonTop, Member, MemberView, json_members, parse_json_members, parsed_view};
use crate::text::{
    append, ascii_lower, byte_len, char_is_whitespace, chars_of, contains, contains_str,
    decimal, decimal_string, is_ascii_alphanumeric, is_ascii_whitespace, is_unicode_whitespace,
    replace_char, replace_char_chars, str_eq, string_from_chars, string_of, to_lowercase, trim,
    trim_char, trim_char_chars, trim_chars, trim_end, trim_start, trim_char_start, trim_char_end,
    unicode_lowercase, utf8_len,
};

verus! {

broadcast use vstd::string::group_string_axioms;

/// Revisions kept per game.
pub const MAX_REVISIONS_PER_GAME: usize = 40;

// ───────────────────────── keys ─────────────────────────

/// What one lowercased character becomes in a key: ASCII letters, digits,
/// '-', '/' and '_' stay, ASCII whitespace becomes '-', the rest is dropped.
pub open spec fn key_piece(c: char) -> Seq<char> {
    if is_ascii_alphanumeric(c) || c == '-' || c == '/' || c == '_' {
        seq![c]
    } else if is_ascii_whitespace(c) {
        seq!['-']
    } else {
        Seq::empty()
    }
}

/// The key pieces of every character, in order.
pub open spec fn key_chars(s: Seq<char>) -> Seq<char>
    decreases s.len(),
{
    if s.len() == 0 {
        Seq::empty()
    } else {
        key_chars(s.drop_last()) + key_piece(s.last())
    }
}

/// The lowercase of a text as `str::to_lowercase` gives it (on ASCII text,
/// 'A'..='Z' become 'a'..='z').
pub open spec fn key_lower(s: Seq<char>) -> Seq<char> {
    if vstd::utf8::is_ascii_chars(s) {
        ascii_lower(s)
    } else {
        unicode_lowercase(s)
    }
}

/// A game key: trimmed, lowercased, reduced to `[a-z0-9/_-]` with whitespace
/// turned into '-', and without leading or trailing '-'.
pub open spec fn normalized_key(input: Seq<char>) -> Seq<char> {
    trim_char(key_chars(key_lower(trim(input))), '-')
}

/// A character a key may hold.
pub open spec fn key_char(c: char) -> bool {
    ('a' <= c && c <= 'z') || ('0' <= c && c <= '9') || c == '-' || c == '/' || c == '_'
}

proof fn lemma_key_chars_of_allowed(s: Seq<char>)
    requires
        forall|i: int| 0 <= i < s.len() ==> key_char(#[trigger] s[i]),
    ensures
        key_chars(s) == s,
    decreases s.len(),
{
    if s.len() > 0 {
        lemma_key_chars_of_allowed(s.drop_last());
        assert(key_char(s[s.len() - 1]));
        assert(s =~= s.drop_last() + seq![s.last()]);
    }
}

proof fn lemma_trim_start_noop(s: Seq<char>)
    requires
        s.len() == 0 || !is_unicode_whitespace(s[0]),
    ensures
        trim_start(s) == s,
{
}

proof fn lemma_trim_end_noop(s: Seq<char>)
    requires
        s.len() == 0 || !is_unicode_whitespace(s.last()),
    ensures
        trim_end(s) == s,
{
}

proof fn lemma_trim_char_start_noop(s: Seq<char>, c: char)
    requires
        s.len() == 0 || s[0] != c,
    ensures
        trim_char_start(s, c) == s,
{
}

proof fn lemma_trim_char_end_noop(s: Seq<char>, c: char)
    requires
        s.len() == 0 || s.last() != c,
    ensures
        trim_char_end(s, c) == s,
{
}

proof fn lemma_trim_char_ends(s: Seq<char>, c: char)
    ensures
        ({
            let t = trim_char(s, c);
            t.len() == 0 || (t[0] != c && t.last() != c)
        }),
        forall|i: int| 0 <= i < trim_char(s, c).len() ==> exists|j: int| 0 <= j < s.len() && s[j] == #[trigger] trim_char(s, c)[i],
    decreases s.len(),
{
    lemma_trim_char_start_props(s, c);
    let a = trim_char_start(s, c);
    lemma_trim_char_end_props(a, c);
    let t = trim_char_end(a, c);
    if t.len() > 0 {
        assert(t[0] == a[0]);
    }
    assert forall|i: int| 0 <= i < t.len() implies exists|j: int| 0 <= j < s.len() && s[j] == #[trigger] t[i] by {
        assert(t[i] == a[i]);
        let k = i + (s.len() - a.len());
        assert(a[i] == s[k]);
    }
}

proof fn lemma_trim_char_start_props(s: Seq<char>, c: char)
    ensures
        ({
            let a = trim_char_start(s, c);
            &&& a.len() <= s.len()
            &&& a == s.skip(s.len() - a.len())
            &&& (a.len() == 0 || a[0] != c)
        }),
    decreases s.len(),
{
    if s.len() > 0 && s[0] == c {
        lemma_trim_char_start_props(s.drop_first(), c);
        let a = trim_char_start(s, c);
        assert(s.drop_first().skip(s.drop_first().len() - a.len()) =~= s.skip(s.len() - a.len()));
    } else {
        assert(s.skip(0) =~= s);
    }
}

proof fn lemma_trim_char_end_props(s: Seq<char>, c: char)
    ensures
        ({
            let a = trim_char_end(s, c);
            &&& a.len() <= s.len()
            &&& a == s.take(a.len() as int)
            &&& (a.len() == 0 || a.last() != c)
        }),
    decreases s.len(),
{
    if s.len() > 0 && s.last() == c {
        lemma_trim_char_end_props(s.drop_last(), c);
        let a = trim_char_end(s, c);
        assert(s.drop_last().take(a.len() as int) =~= s.take(a.len() as int));
    } else {
        assert(s.take(s.len() as int) =~= s);
    }
}

/// Normalizes a game key: trims, lowercases, keeps ASCII letters, digits, '-',
/// '/' and '_', turns ASCII whitespace into '-', drops everything else, and
/// strips leading and trailing '-'. Normalizing a normalized key changes
/// nothing.
pub fn normalize_key(input: &str) -> (r: String)
    ensures
        r@ == normalized_key(input@),
        forall|i: int| 0 <= i < r@.len() ==> key_char(#[trigger] r@[i]),
        normalized_key(r@) == r@,
{
    let trimmed = trim_str_chars(input);
    let ts = string_from_chars(&trimmed);
    let lower = to_lowercase(ts.as_str());
    let lc = chars_of(lower.as_str());
    assert(lc@ == key_lower(trim(input@))) by {
        if vstd::utf8::is_ascii_chars(trim(input@)) {
        }
    }
    let mut out: Vec<char> = Vec::new();
    let mut i: usize = 0;
    while i < lc.len()
        invariant
            i <= lc.len(),
            forall|k: int| 0 <= k < lc@.len() ==> !('A' <= #[trigger] lc@[k] && lc@[k] <= 'Z'),
            out@ == key_chars(lc@.take(i as int)),
            forall|k: int| 0 <= k < out@.len() ==> key_char(#[trigger] out@[k]),
        decreases lc.len() - i,
    {
        assert(lc@.take(i + 1).drop_last() =~= lc@.take(i as int));
        let c = lc[i];
        assert(!('A' <= c && c <= 'Z'));
        if ('0' <= c && c <= '9') || ('a' <= c && c <= 'z') || ('A' <= c && c <= 'Z') || c == '-'
            || c == '/' || c == '_' {
            out.push(c);
        } else if c == ' ' || c == '\t' || c == '\n' || c == '\x0C' || c == '\r' {
            out.push('-');
        }
        assert(out@ =~= key_chars(lc@.take(i + 1)));
        i += 1;
    }
    assert(lc@.take(lc.len() as int) =~= lc@);
    let t = trim_char_chars(&out, '-');
    proof {
        lemma_trim_char_ends(out@, '-');
    }
    let r = string_from_chars(&t);
    proof {
        let rv = r@;
        assert forall|k: int| 0 <= k < rv.len() implies key_char(#[trigger] rv[k]) by {
            let j = choose|j: int| 0 <= j < out@.len() && out@[j] == trim_char(out@, '-')[k];
            assert(key_char(out@[j]));
        }
        // a second pass leaves the key as it is
        assert(rv.len() == 0 || !is_unicode_whitespace(rv[0]));
        lemma_trim_start_noop(rv);
        assert(rv.len() == 0 || !is_unicode_whitespace(rv.last()));
        lemma_trim_end_noop(rv);
        assert(trim(rv) == rv);
        assert(vstd::utf8::is_ascii_chars(rv));
        assert(ascii_lower(rv) =~= rv);
        lemma_key_chars_of_allowed(rv);
        lemma_trim_char_start_noop(rv, '-');
        lemma_trim_char_end_noop(rv, '-');
    }
    r
}

fn trim_str_chars(s: &str) -> (r: Vec<char>)
    ensures
        r@ == trim(s@),
{
    let cs = chars_of(s);
    trim_chars(&cs)
}

/// A key as a file-name part: every '/' becomes "__".
pub open spec fn file_safe(key: Seq<char>) -> Seq<char> {
    replace_char(key, '/', "__"@)
}

/// A key as a file-name part: every '/' becomes "__", so the result holds no '/'.
pub fn file_safe_key(game_key: &str) -> (r: String)
    ensures
        r@ == file_safe(game_key@),
        !r@.contains('/'),
{
    let gc = chars_of(game_key);
    let us = chars_of("__");
    let r = replace_char_chars(&gc, '/', &us);
    proof {
        reveal_strlit("__");
        lemma_replace_slash_free(gc@);
    }
    string_from_chars(&r)
}

proof fn lemma_replace_slash_free(s: Seq<char>)
    ensures
        !replace_char(s, '/', "__"@).contains('/'),
    decreases s.len(),
{
    reveal_strlit("__");
    if s.len() > 0 {
        lemma_replace_slash_free(s.drop_last());
        let a = replace_char(s.drop_last(), '/', "__"@);
        let b: Seq<char> = if s.last() == '/' { "__"@ } else { seq![s.last()] };
        assert(replace_char(s, '/', "__"@) == a + b);
        assert forall|i: int| 0 <= i < (a + b).len() implies (a + b)[i] != '/' by {
            if i < a.len() {
                assert((a + b)[i] == a[i]);
                assert(!a.contains('/'));
                if a[i] == '/' {
                    assert(a.contains('/'));
                }
            } else {
                assert((a + b)[i] == b[i - a.len()]);
            }
        }
    }
}

// ───────────────────────── resources ─────────────────────────

/// The keys of a list of (key, value) entries.
pub open spec fn entry_keys(es: Seq<(Seq<char>, Seq<char>)>) -> Seq<Seq<char>> {
    es.map_values(|e: (Seq<char>, Seq<char>)| e.0)
}

/// Map insertion on an entry list: a present key gets the new value in
/// place, a new key goes last.
pub open spec fn put_entry(es: Seq<(Seq<char>, Seq<char>)>, k: Seq<char>, v: Seq<char>) -> Seq<(Seq<char>, Seq<char>)> {
    if entry_keys(es).contains(k) {
        es.map_values(|e: (Seq<char>, Seq<char>)| if e.0 == k { (k, v) } else { e })
    } else {
        es.push((k, v))
    }
}

/// A resource path that may be stored: not empty, relative, without "..",
/// and not one of the canvas' own files.
pub open spec fn storable_path(path: Seq<char>) -> bool {
    &&& path.len() > 0
    &&& path[0] != '/'
    &&& !contains(path, ".."@)
    &&& path != "canvas/app.html"@
    &&& path != "canvas/games.json"@
}

/// The resources taken from the first `n` members.
pub open spec fn resource_entries(members: Seq<(Seq<char>, MemberView)>, n: nat) -> Seq<(Seq<char>, Seq<char>)>
    decreases n,
{
    if n == 0 {
        Seq::empty()
    } else {
        let prev = resource_entries(members, (n - 1) as nat);
        let (k, v) = members[n - 1];
        let path = trim(k);
        match v {
            MemberView::Str(s) => if storable_path(path) && s.len() > 0 {
                put_entry(prev, path, s)
            } else {
                prev
            },
            _ => prev,
        }
    }
}

/// The resources of a commit: a JSON object of path → text. Blank text,
/// unparsable text and non-objects give none; keys are trimmed; unsafe or
/// reserved paths and empty or non-string values are skipped; a repeated path
/// keeps its last value.
pub open spec fn resources_of(raw: Seq<char>) -> Seq<(Seq<char>, Seq<char>)> {
    if trim(raw).len() == 0 {
        Seq::empty()
    } else {
        resources_in(json_members(raw))
    }
}

/// The resources of a parsed document: those of an object's members, none
/// for anything else.
pub open spec fn resources_in(parsed: Result<Option<Seq<(Seq<char>, MemberView)>>, Seq<char>>) -> Seq<(Seq<char>, Seq<char>)> {
    match parsed {
        Ok(Some(members)) => resource_entries(members, members.len()),
        _ => Seq::empty(),
    }
}

/// The texts of a list of string pairs.
pub open spec fn pairs_view(v: Seq<(String, String)>) -> Seq<(Seq<char>, Seq<char>)> {
    v.map_values(|e: (String, String)| (e.0@, e.1@))
}

fn put_entry_exec(es: &mut Vec<(String, String)>, k: String, v: String)
    ensures
        pairs_view(final(es)@) == put_entry(pairs_view(old(es)@), k@, v@),
{
    let ghost before = pairs_view(es@);
    let mut found = false;
    let mut i: usize = 0;
    let n = es.len();
    while i < n
        invariant
            n == es.len(),
            i <= n,
            before.len() == n,
            found <==> exists|j: int| 0 <= j < i && #[trigger] before[j].0 == k@,
            forall|j: int| 0 <= j < i ==> (#[trigger] es@[j].0@, es@[j].1@) == (if before[j].0 == k@ {
                (k@, v@)
            } else {
                before[j]
            }),
            forall|j: int| i <= j < n ==> (#[trigger] es@[j].0@, es@[j].1@) == before[j],
        decreases n - i,
    {
        assert((es@[i as int].0@, es@[i as int].1@) == before[i as int]);
        if str_eq(es[i].0.as_str(), k.as_str()) {
            assert(before[i as int].0 == k@);
            es.set(i, (k.clone(), v.clone()));
            found = true;
        } else {
            assert(before[i as int].0 != k@);
        }
        i += 1;
    }
    assert(pairs_view(es@).len() == n);
    if found {
        assert(entry_keys(before).contains(k@)) by {
            let j = choose|j: int| 0 <= j < n && #[trigger] before[j].0 == k@;
            assert(entry_keys(before)[j] == k@);
        }
        assert(pairs_view(es@) =~= before.map_values(
            |e: (Seq<char>, Seq<char>)| if e.0 == k@ { (k@, v@) } else { e },
        ));
    } else {
        assert(!entry_keys(before).contains(k@)) by {
            if entry_keys(before).contains(k@) {
                let j = choose|j: int| 0 <= j < entry_keys(before).len() && entry_keys(before)[j] == k@;
                assert(before[j].0 == k@);
            }
        }
        assert(pairs_view(es@) =~= before);
        es.push((k, v));
        assert(pairs_view(es@) =~= before.push((k@, v@)));
    }
}

fn storable_path_exec(path: &str) -> (b: bool)
    ensures
        b == storable_path(path@),
{
    let pc = chars_of(path);
    pc.len() > 0 && pc[0] != '/' && !contains_str(&pc, "..") && !str_eq(path, "canvas/app.html")
        && !str_eq(path, "canvas/games.json")
}

/// The resources of a commit, from their JSON text (see `resources_of`).
pub fn parse_resources(raw: &str) -> (r: Vec<(String, String)>)
    ensures
        pairs_view(r@) == resources_of(raw@),
{
    let blank = trim_str_chars(raw);
    if blank.len() == 0 {
        return Vec::new();
    }
    let parsed = parse_json_members(raw);
    resources_from_parsed(&parsed)
}

/// The resources of a parsed document (see `resources_in`).
pub fn resources_from_parsed(parsed: &Result<JsonTop, String>) -> (r: Vec<(String, String)>)
    ensures
        pairs_view(r@) == resources_in(parsed_view(*parsed)),
{
    let members = match parsed {
        Ok(JsonTop::Object(ms)) => ms,
        _ => {
            return Vec::new();
        },
    };
    let ghost mv = members@.map_values(|e: (String, Member)| (e.0@, crate::json::member_view(e.1)));
    let mut out: Vec<(String, String)> = Vec::new();
    let mut i: usize = 0;
    while i < members.len()
        invariant
            i <= members.len(),
            mv == members@.map_values(|e: (String, Member)| (e.0@, crate::json::member_view(e.1))),
            pairs_view(out@) == resource_entries(mv, i as nat),
        decreases members.len() - i,
    {
        let path = crate::text::trim_str(members[i].0.as_str());
        match &members[i].1 {
            Member::Str(s) => {
                if storable_path_exec(path.as_str()) && !s.as_str().is_empty() {
                    put_entry_exec(&mut out, path, s.clone());
                }
            },
            _ => {},
        }
        i += 1;
    }
    out
}

// ───────────────────────── requests ─────────────────────────

/// What a revision call asks for.
pub enum VcsRequest {
    Commit {
        game_key: String,
        content: String,
        name: String,
        version: String,
        resources: Vec<(String, String)>,
    },
    List { game_key: String },
    Checkout { game_key: String, rev_id: String },
    Delete { game_key: String, rev_id: String },
}

/// What a revision call `[action, game_key, ...]` asks for.
pub open spec fn vcs_request_ok(args: Seq<Arg>, r: Result<VcsRequest, String>) -> bool {
    let action = arg_str_or(args, 0, "list"@);
    let key = normalized_key(arg_str_or(args, 1, ""@));
    if action == "commit"@ || action == "list"@ || action == "checkout"@ || action == "delete"@ {
        if key.len() == 0 {
            r matches Err(e) && e@ == "game_key required"@
        } else if action == "commit"@ {
            let content = arg_str_or(args, 2, ""@);
            if content.len() == 0 {
                r matches Err(e) && e@ == "content required"@
            } else {
                r matches Ok(VcsRequest::Commit { game_key, content: c, name, version, resources })
                    && game_key@ == key && c@ == content && name@ == arg_str_or(args, 3, "untitled"@)
                    && version@ == arg_str_or(args, 4, ""@) && pairs_view(resources@) == resources_of(
                    arg_str_or(args, 5, "{}"@),
                )
            }
        } else if action == "list"@ {
            r matches Ok(VcsRequest::List { game_key }) && game_key@ == key
        } else {
            let rev = arg_str_or(args, 2, ""@);
            if rev.len() == 0 {
                r matches Err(e) && e@ == "revision id required"@
            } else if action == "checkout"@ {
                r matches Ok(VcsRequest::Checkout { game_key, rev_id }) && game_key@ == key && rev_id@ == rev
            } else {
                r matches Ok(VcsRequest::Delete { game_key, rev_id }) && game_key@ == key && rev_id@ == rev
            }
        }
    } else {
        r matches Err(e) && e@ == "Unknown action. Use: commit, list, checkout, delete"@
    }
}

/// Reads `[action, game_key, ...]`: `commit <key> <content> [name] [version]
/// [resources_json]`, `list <key>`, `checkout <key> <rev_id>`,
/// `delete <key> <rev_id>`. The action defaults to "list"; the key is
/// normalized and must not end up empty.
pub fn parse_vcs_request(args: &Vec<Arg>) -> (r: Result<VcsRequest, String>)
    ensures
        vcs_request_ok(args@, r),
{
    let action = get_str_or(args, 0, "list");
    let raw_key = get_str_or(args, 1, "");
    let game_key = normalize_key(raw_key.as_str());
    let a = action.as_str();
    let known = str_eq(a, "commit") || str_eq(a, "list") || str_eq(a, "checkout") || str_eq(a, "delete");
    if !known {
        return Err(string_of("Unknown action. Use: commit, list, checkout, delete"));
    }
    if game_key.as_str().is_empty() {
        return Err(string_of("game_key required"));
    }
    if str_eq(a, "commit") {
        let content = get_str_or(args, 2, "");
        if content.as_str().is_empty() {
            return Err(string_of("content required"));
        }
        let name = get_str_or(args, 3, "untitled");
        let version = get_str_or(args, 4, "");
        let res_raw = get_str_or(args, 5, "{}");
        let resources = parse_resources(res_raw.as_str());
        Ok(VcsRequest::Commit { game_key, content, name, version, resources })
    } else if str_eq(a, "list") {
        Ok(VcsRequest::List { game_key })
    } else {
        let rev_id = get_str_or(args, 2, "");
        if rev_id.as_str().is_empty() {
            return Err(string_of("revision id required"));
        }
        if str_eq(a, "checkout") {
            Ok(VcsRequest::Checkout { game_key, rev_id })
        } else {
            Ok(VcsRequest::Delete { game_key, rev_id })
        }
    }
}

// ───────────────────────── revisions ─────────────────────────

/// One entry of a game's revision list, as far as the decisions read it:
/// its `id` and `path` when they are strings.
pub struct RevisionMeta {
    pub id: Option<String>,
    pub path: Option<String>,
}

/// A revision's id, "" when it has none.
pub open spec fn meta_id(m: RevisionMeta) -> Seq<char> {
    match m.id {
        Some(s) => s@,
        None => Seq::empty(),
    }
}

/// The file a revision snapshot is stored in.
pub open spec fn revision_path(id: Seq<char>) -> Seq<char> {
    "canvas/revisions/"@ + id + ".json"@
}

/// The snapshot file of revision `id`.
pub fn revision_file(id: &str) -> (r: String)
    ensures
        r@ == revision_path(id@),
{
    let mut p = string_of("canvas/revisions/");
    append(&mut p, id);
    append(&mut p, ".json");
    p
}

/// The revision whose snapshot a commit compares against: the last one, when
/// its id is a string.
pub fn dedup_candidate(revs: &Vec<RevisionMeta>) -> (r: Option<String>)
    ensures
        revs@.len() == 0 ==> r is None,
        revs@.len() > 0 ==> crate::args::opt_chars(r) == crate::args::opt_chars(revs@.last().id),
{
    if revs.len() == 0 {
        None
    } else {
        match &revs[revs.len() - 1].id {
            Some(s) => Some(s.clone()),
            None => None,
        }
    }
}

/// How a commit that is not a duplicate is stored.
pub struct CommitStore {
    /// The new revision's id.
    pub id: String,
    /// Its snapshot file.
    pub path: String,
    /// The content's length in bytes.
    pub length: usize,
    /// How many of the oldest revisions leave the list.
    pub drop_count: usize,
    /// The snapshot files of those that had one.
    pub delete_paths: Vec<String>,
}

/// The outcome of a commit.
pub enum CommitPlan {
    /// The last revision already holds this content.
    Duplicate { id: String },
    Store(CommitStore),
}

/// The id of the `count`-th revision of a game, made at `stamp`.
pub open spec fn revision_id(game_key: Seq<char>, stamp: Seq<char>, count: nat) -> Seq<char> {
    file_safe(game_key) + "-"@ + stamp + "-"@ + decimal(count)
}

/// The paths of the revisions among the first `n` that have one.
pub open spec fn paths_of(revs: Seq<RevisionMeta>, n: nat) -> Seq<Seq<char>>
    decreases n,
{
    if n == 0 {
        Seq::empty()
    } else {
        let prev = paths_of(revs, (n - 1) as nat);
        match revs[n - 1].path {
            Some(p) => prev.push(p@),
            None => prev,
        }
    }
}

/// How many of the oldest revisions leave when one is added to `len`.
pub open spec fn overflow(len: nat) -> nat {
    if len + 1 > MAX_REVISIONS_PER_GAME { (len + 1 - MAX_REVISIONS_PER_GAME) as nat } else { 0 }
}

/// The id of the last revision, when it has one.
pub open spec fn last_revision_id(revs: Seq<RevisionMeta>) -> Option<Seq<char>> {
    if revs.len() > 0 { crate::args::opt_chars(revs.last().id) } else { None }
}

/// A commit repeats the last revision: that revision has an id and its
/// snapshot holds the same content.
pub open spec fn is_duplicate(revs: Seq<RevisionMeta>, last_snapshot_content: Option<Seq<char>>, content: Seq<char>) -> bool {
    last_revision_id(revs) is Some && last_snapshot_content == Some(content)
}

/// The revision list after a stored commit adds `m`: the oldest leave so
/// that at most `MAX_REVISIONS_PER_GAME` remain.
pub open spec fn revisions_after(revs: Seq<RevisionMeta>, m: RevisionMeta) -> Seq<RevisionMeta> {
    revs.push(m).skip(overflow(revs.len()) as int)
}

/// Decides a commit. `last_snapshot_content` is the `content` of the last
/// revision's snapshot, if it could be read; equal content is a duplicate of
/// that revision. Otherwise the revision is numbered after the existing ones,
/// and when the list would exceed `MAX_REVISIONS_PER_GAME` the oldest leave.
pub fn plan_commit(
    game_key: &str,
    content: &str,
    revs: &Vec<RevisionMeta>,
    last_snapshot_content: Option<String>,
    stamp: &str,
) -> (r: CommitPlan)
    requires
        revs@.len() < usize::MAX,
    ensures
        ({
            let last_id = last_revision_id(revs@);
            let dup = is_duplicate(revs@, crate::args::opt_chars(last_snapshot_content), content@);
            &&& dup ==> (r matches CommitPlan::Duplicate { id } && Some(id@) == last_id)
            &&& !dup ==> (r matches CommitPlan::Store(s) && {
                &&& s.id@ == revision_id(game_key@, stamp@, (revs@.len() + 1) as nat)
                &&& s.path@ == revision_path(s.id@)
                &&& s.length == utf8_len(content@) as usize
                &&& s.drop_count == overflow(revs@.len())
                &&& s.delete_paths@.map_values(|p: String| p@) == paths_of(revs@, overflow(revs@.len()))
            })
        }),
{
    match dedup_candidate(revs) {
        Some(last_id) => {
            match &last_snapshot_content {
                Some(c) => {
                    if str_eq(c.as_str(), content) {
                        return CommitPlan::Duplicate { id: last_id };
                    }
                },
                None => {},
            }
        },
        None => {},
    }
    let mut id = file_safe_key(game_key);
    append(&mut id, "-");
    append(&mut id, stamp);
    append(&mut id, "-");
    let count = revs.len() + 1;
    append(&mut id, decimal_string(count as u64).as_str());
    let path = revision_file(id.as_str());
    let length = byte_len(content);
    let drop_count: usize = if count > MAX_REVISIONS_PER_GAME { count - MAX_REVISIONS_PER_GAME } else { 0 };
    let mut delete_paths: Vec<String> = Vec::new();
    let mut i: usize = 0;
    while i < drop_count
        invariant
            drop_count <= revs.len(),
            i <= drop_count,
            delete_paths@.map_values(|p: String| p@) == paths_of(revs@, i as nat),
        decreases drop_count - i,
    {
        match &revs[i].path {
            Some(p) => {
                delete_paths.push(p.clone());
                assert(delete_paths@.map_values(|p: String| p@) =~= paths_of(revs@, i as nat).push(p@));
            },
            None => {},
        }
        i += 1;
    }
    CommitPlan::Store(CommitStore { id, path, length, drop_count, delete_paths })
}

/// Which revisions a delete keeps, and which snapshot file it removes.
pub struct DeletePlan {
    /// `keep[i]` tells whether revision `i` stays.
    pub keep: Vec<bool>,
    /// How many stay.
    pub remaining: usize,
    /// The snapshot file to remove.
    pub path: String,
}

/// The path recorded by the last of the first `n` revisions with id
/// `rev_id`: `None` when none has that id, `Some(None)` when the last such
/// revision records no path.
pub open spec fn last_match_path(revs: Seq<RevisionMeta>, rev_id: Seq<char>, n: nat) -> Option<Option<Seq<char>>>
    decreases n,
{
    if n == 0 {
        None
    } else if meta_id(revs[n - 1]) == rev_id {
        Some(crate::args::opt_chars(revs[n - 1].path))
    } else {
        last_match_path(revs, rev_id, (n - 1) as nat)
    }
}

/// Decides a delete: every revision with id `rev_id` leaves the list, and the
/// snapshot recorded by the last of them is removed. When no revision has
/// that id, or the last one records no snapshot path, the delete fails with
/// "revision not found".
pub fn plan_delete(revs: &Vec<RevisionMeta>, rev_id: &str) -> (r: Result<DeletePlan, String>)
    ensures
        ({
            let found = last_match_path(revs@, rev_id@, revs@.len());
            &&& (found matches Some(Some(_))) ==> (r matches Ok(plan) && {
                &&& Some(Some(plan.path@)) == found
                &&& plan.keep@.len() == revs@.len()
                &&& forall|i: int| 0 <= i < revs@.len() ==> plan.keep@[i] == (meta_id(#[trigger] revs@[i]) != rev_id@)
                &&& plan.remaining == revs@.filter(|m: RevisionMeta| meta_id(m) != rev_id@).len()
            })
            &&& !(found matches Some(Some(_))) ==> (r matches Err(e) && e@ == "revision not found"@)
        }),
{
    let mut keep: Vec<bool> = Vec::new();
    let mut remaining: usize = 0;
    let mut found: Option<Option<String>> = None;
    let ghost pred = |m: RevisionMeta| meta_id(m) != rev_id@;
    let mut i: usize = 0;
    while i < revs.len()
        invariant
            i <= revs.len(),
            keep@.len() == i,
            forall|k: int| 0 <= k < i ==> keep@[k] == (meta_id(#[trigger] revs@[k]) != rev_id@),
            forall|m: RevisionMeta| #[trigger] pred(m) == (meta_id(m) != rev_id@),
            remaining == revs@.take(i as int).filter(pred).len(),
            remaining <= i,
            match found {
                None => last_match_path(revs@, rev_id@, i as nat) is None,
                Some(o) => last_match_path(revs@, rev_id@, i as nat) == Some(crate::args::opt_chars(o)),
            },
        decreases revs.len() - i,
    {
        assert(revs@.take(i + 1).drop_last() =~= revs@.take(i as int));
        reveal_with_fuel(Seq::filter, 1);
        let matches = match &revs[i].id {
            Some(s) => str_eq(s.as_str(), rev_id),
            None => {
                assert(rev_id@.len() == 0 ==> rev_id@ =~= Seq::<char>::empty());
                rev_id.is_empty()
            },
        };
        assert(matches == (meta_id(revs@[i as int]) == rev_id@));
        assert(revs@.take(i + 1).last() == revs@[i as int]);
        if matches {
            found = Some(match &revs[i].path {
                Some(p) => Some(p.clone()),
                None => None,
            });
            keep.push(false);
        } else {
            keep.push(true);
            remaining += 1;
        }
        i += 1;
    }
    assert(revs@.take(revs.len() as int) =~= revs@);
    match found {
        Some(Some(p)) => Ok(DeletePlan { keep, remaining, path: p }),
        _ => Err(string_of("revision not found")),
    }
}

/// The error a checkout ends in, if any: the snapshot was not found, did not
/// parse, or belongs to another game.
pub fn checkout_error(found: bool, parsed: bool, snapshot_game_key: Option<String>, game_key: &str) -> (r: Option<String>)
    ensures
        !found ==> (r matches Some(e) && e@ == "revision not found"@),
        found && !parsed ==> (r matches Some(e) && e@ == "invalid snapshot"@),
        found && parsed && crate::args::opt_chars(snapshot_game_key) != Some(game_key@) ==> (r matches Some(e)
            && e@ == "revision belongs to different game"@),
        found && parsed && crate::args::opt_chars(snapshot_game_key) == Some(game_key@) ==> r is None,
{
    if !found {
        return Some(string_of("revision not found"));
    }
    if !parsed {
        return Some(string_of("invalid snapshot"));
    }
    match snapshot_game_key {
        Some(k) => {
            if str_eq(k.as_str(), game_key) {
                None
            } else {
                Some(string_of("revision belongs to different game"))
            }
        },
        None => Some(string_of("revision belongs to different game")),
    }
}

// ───────────────────────── the revision list ─────────────────────────

/// Stores a commit in the revision list: `m` goes last and the oldest
/// `drop_count` leave (see `plan_commit`, whose `drop_count` keeps the list
/// within `MAX_REVISIONS_PER_GAME`).
pub fn apply_commit<T>(revs: &mut Vec<T>, m: T, drop_count: usize)
    requires
        drop_count <= old(revs)@.len() + 1,
    ensures
        final(revs)@ == old(revs)@.push(m).skip(drop_count as int),
{
    let ghost all = old(revs)@.push(m);
    revs.push(m);
    let mut k: usize = 0;
    while k < drop_count
        invariant
            k <= drop_count,
            drop_count <= all.len(),
            revs@ == all.skip(k as int),
        decreases drop_count - k,
    {
        revs.remove(0);
        assert(revs@ =~= all.skip(k + 1));
        k += 1;
    }
}

/// The entries whose `keep` flag is set, in order.
pub open spec fn kept<T>(revs: Seq<T>, keep: Seq<bool>) -> Seq<T>
    decreases revs.len(),
{
    if revs.len() == 0 {
        Seq::empty()
    } else {
        let prev = kept(revs.drop_last(), keep.take(revs.len() - 1));
        if keep[revs.len() - 1] { prev.push(revs.last()) } else { prev }
    }
}

/// The revisions a delete keeps (`keep` as `plan_delete` gives it).
pub fn keep_marked<T>(revs: Vec<T>, keep: &Vec<bool>) -> (r: Vec<T>)
    requires
        keep@.len() == revs@.len(),
    ensures
        r@ == kept(revs@, keep@),
{
    let ghost orig = revs@;
    let n = revs.len();
    let mut rest = revs;
    let mut out: Vec<T> = Vec::new();
    let mut i: usize = 0;
    assert(orig.skip(0) =~= orig);
    while i < n
        invariant
            n == orig.len(),
            keep@.len() == n,
            i <= n,
            rest@ == orig.skip(i as int),
            out@ == kept(orig.take(i as int), keep@.take(i as int)),
        decreases n - i,
    {
        let x = rest.remove(0);
        assert(x == orig[i as int]);
        assert(rest@ =~= orig.skip(i + 1));
        assert(orig.take(i + 1).drop_last() =~= orig.take(i as int));
        assert(keep@.take(i + 1).take(i as int) =~= keep@.take(i as int));
        if keep[i] {
            out.push(x);
        }
        i += 1;
    }
    assert(orig.take(n as int) =~= orig);
    assert(keep@.take(n as int) =~= keep@);
    out
}

/// The revisions newest first, as `list` shows them.
pub fn newest_first<T>(revs: Vec<T>) -> (r: Vec<T>)
    ensures
        r@ == revs@.reverse(),
{
    let ghost orig = revs@;
    let mut rest = revs;
    let mut out: Vec<T> = Vec::new();
    while rest.len() > 0
        invariant
            rest@ == orig.take(rest@.len() as int),
            rest@.len() <= orig.len(),
            out@ == orig.skip(rest@.len() as int).reverse(),
        decreases rest@.len(),
    {
        let ghost len = rest@.len();
        let x = rest.pop().unwrap();
        assert(x == orig[len - 1]);
        assert(rest@ =~= orig.take(len - 1));
        out.push(x);
        assert(out@ =~= orig.skip(len - 1).reverse());
    }
    assert(orig.skip(0) =~= orig);
    out
}

// ───────────────────────── laws ─────────────────────────

/// After a commit that is stored, the list keeps at most
/// `MAX_REVISIONS_PER_GAME` revisions, the newest of them the new one, and
/// every revision that stays keeps its place among the others.
pub proof fn lemma_commit_keeps_bounded(revs: Seq<RevisionMeta>, m: RevisionMeta)
    ensures
        revisions_after(revs, m).len() == (if revs.len() + 1 > MAX_REVISIONS_PER_GAME {
            MAX_REVISIONS_PER_GAME as int
        } else {
            revs.len() + 1 as int
        }),
        revisions_after(revs, m).len() <= MAX_REVISIONS_PER_GAME,
        revisions_after(revs, m).last() == m,
        forall|i: int| 0 <= i < revisions_after(revs, m).len() - 1 ==> #[trigger] revisions_after(revs, m)[i]
            == revs[i + overflow(revs.len())],
{
}

/// Committing the content that the last commit stored is a duplicate of that
/// commit: the revision it added has an id, and its snapshot holds the
/// content.
pub proof fn lemma_commit_twice_is_duplicate(revs: Seq<RevisionMeta>, m: RevisionMeta, content: Seq<char>)
    requires
        m.id is Some,
    ensures
        is_duplicate(revisions_after(revs, m), Some(content), content),
        last_revision_id(revisions_after(revs, m)) == crate::args::opt_chars(m.id),
{
    lemma_commit_keeps_bounded(revs, m);
}

/// A delete keeps exactly the revisions without that id, in order: applying
/// the plan's `keep` flags is filtering by the id.
pub proof fn lemma_delete_keeps_other_revisions(revs: Seq<RevisionMeta>, rev_id: Seq<char>, keep: Seq<bool>)
    requires
        keep.len() == revs.len(),
        forall|i: int| 0 <= i < revs.len() ==> keep[i] == (meta_id(#[trigger] revs[i]) != rev_id),
    ensures
        kept(revs, keep) == revs.filter(|m: RevisionMeta| meta_id(m) != rev_id),
        forall|i: int| 0 <= i < kept(revs, keep).len() ==> meta_id(#[trigger] kept(revs, keep)[i]) != rev_id,
    decreases revs.len(),
{
    let pred = |m: RevisionMeta| meta_id(m) != rev_id;
    reveal_with_fuel(Seq::filter, 1);
    if revs.len() > 0 {
        let k2 = keep.take(revs.len() - 1);
        assert forall|i: int| 0 <= i < revs.drop_last().len() implies k2[i] == (meta_id(
            #[trigger] revs.drop_last()[i],
        ) != rev_id) by {
            assert(revs.drop_last()[i] == revs[i]);
        }
        lemma_delete_keeps_other_revisions(revs.drop_last(), rev_id, k2);
        assert(keep[revs.len() - 1] == pred(revs.last()));
    }
    broadcast use vstd::seq_lib::group_filter_ensures;
}

} // verus!
