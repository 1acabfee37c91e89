//! The stored documents: the games collection, the revision index and
//! snapshots, and the voice transcript, read from their JSON text and
//! written back as serde_json writes them (compact, keys in order).

use vstd::prelude::*;
use crate::args::opt_chars;
use crate::games::{Collection, CollectionV, Entry, EntryV, Field, FieldV, Game, GameV, GamesKind, GamesKindV, well_formed};
use crate::json::{
    array_text, json_document, object_text, part_text, quoted, read_stored, stored_doc, stored_view,
    write_array, write_object, write_part, JsonDoc, JsonDocV, JsonPart, JsonPartV, Stored, StoredV,
    parse_json_document, push_quoted, doc_result_view,
};
use crate::keyorder::{entries_view, find_key, index_of, lemma_index_of, lookup, put, put_entry, sorted_keys};
use crate::text::{push_char, str_eq, string_of};

verus! {

broadcast use vstd::string::group_string_axioms;

// ───────────────────────── reading members ─────────────────────────

/// A member value as a collection field.
pub open spec fn part_field(p: JsonPartV) -> FieldV {
    match p {
        JsonPartV::Null => FieldV::Null,
        JsonPartV::Str(s) => FieldV::Str(s),
        JsonPartV::Other(t) => FieldV::Raw(t),
    }
}

/// Member `k` as a field (absent when the object lacks it).
pub open spec fn member_field(ms: Seq<(Seq<char>, JsonPartV)>, k: Seq<char>) -> FieldV {
    match lookup(ms, k) {
        Some(p) => part_field(p),
        None => FieldV::Absent,
    }
}

/// A key the game model reads (`game`), or the collection reads (`!game`).
pub open spec fn known_key(k: Seq<char>, game: bool) -> bool {
    if game {
        ||| k == "name"@ ||| k == "content"@ ||| k == "scope"@ ||| k == "_scope"@ ||| k == "owner"@
        ||| k == "created"@ ||| k == "updated"@ ||| k == "version"@ ||| k == "game_id"@
        ||| k == "checksum"@ ||| k == "forked_from"@
    } else {
        k == "active"@ || k == "games"@
    }
}

/// The members among the first `n` that the model does not read, as (key,
/// JSON text).
pub open spec fn rest_of(ms: Seq<(Seq<char>, JsonPartV)>, n: nat, game: bool) -> Seq<(Seq<char>, Seq<char>)>
    decreases n,
{
    if n == 0 || n > ms.len() {
        Seq::empty()
    } else {
        let prev = rest_of(ms, (n - 1) as nat, game);
        if known_key(ms[n - 1].0, game) { prev } else { prev.push((ms[n - 1].0, part_text(ms[n - 1].1))) }
    }
}

/// A game object's members as a game.
pub open spec fn game_of(ms: Seq<(Seq<char>, JsonPartV)>) -> GameV {
    GameV {
        name: member_field(ms, "name"@),
        content: member_field(ms, "content"@),
        scope: member_field(ms, "scope"@),
        scope_alt: member_field(ms, "_scope"@),
        owner: member_field(ms, "owner"@),
        created: member_field(ms, "created"@),
        updated: member_field(ms, "updated"@),
        version: member_field(ms, "version"@),
        game_id: member_field(ms, "game_id"@),
        checksum: member_field(ms, "checksum"@),
        forked_from: member_field(ms, "forked_from"@),
        rest: rest_of(ms, ms.len(), true),
    }
}

/// A member of `games`: a game when it is an object, else the value.
pub open spec fn entry_of(p: JsonPartV) -> EntryV {
    match p {
        JsonPartV::Other(t) => match json_document(t) {
            Ok(JsonDocV::Object(gm)) => EntryV::Game(game_of(gm)),
            _ => EntryV::Value(FieldV::Raw(t)),
        },
        _ => EntryV::Value(part_field(p)),
    }
}

/// What the `games` member is, and its games.
pub open spec fn games_member(ms: Seq<(Seq<char>, JsonPartV)>) -> (GamesKindV, Seq<(Seq<char>, EntryV)>) {
    match lookup(ms, "games"@) {
        None => (GamesKindV::Absent, Seq::empty()),
        Some(JsonPartV::Null) => (GamesKindV::Null, Seq::empty()),
        Some(JsonPartV::Str(s)) => (GamesKindV::Other(quoted(s)), Seq::empty()),
        Some(JsonPartV::Other(t)) => match json_document(t) {
            Ok(JsonDocV::Object(gs)) => (
                GamesKindV::Object,
                gs.map_values(|e: (Seq<char>, JsonPartV)| (e.0, entry_of(e.1))),
            ),
            _ => (GamesKindV::Other(t), Seq::empty()),
        },
    }
}

/// What the games document's root is.
pub enum Root {
    Object,
    Null,
    /// Another value, as its JSON text: nothing can be set on it.
    Other(String),
}

/// The plain value of a `Root`.
pub enum RootV {
    Object,
    Null,
    Other(Seq<char>),
}

/// The plain value of a `Root`.
pub open spec fn root_view(r: Root) -> RootV {
    match r {
        Root::Object => RootV::Object,
        Root::Null => RootV::Null,
        Root::Other(t) => RootV::Other(t@),
    }
}

/// A collection with nothing in it.
pub open spec fn bare_collection() -> CollectionV {
    CollectionV { active: FieldV::Absent, kind: GamesKindV::Absent, games: Seq::empty(), rest: Seq::empty() }
}

/// The collection a stored games document holds: a missing or unreadable
/// document is `{"active": null, "games": {}}`.
pub open spec fn collection_of(stored: StoredV) -> (CollectionV, RootV) {
    match stored {
        StoredV::Doc(JsonDocV::Object(ms)) => {
            let (kind, games) = games_member(ms);
            (CollectionV { active: member_field(ms, "active"@), kind, games, rest: rest_of(ms, ms.len(), false) }, RootV::Object)
        },
        StoredV::Doc(JsonDocV::Scalar(JsonPartV::Null)) => (bare_collection(), RootV::Null),
        StoredV::Doc(JsonDocV::Scalar(p)) => (bare_collection(), RootV::Other(part_text(p))),
        StoredV::Doc(JsonDocV::Array(items)) => (
            bare_collection(),
            RootV::Other(array_text(items.map_values(|p: JsonPartV| part_text(p)))),
        ),
        _ => (
            CollectionV { active: FieldV::Null, kind: GamesKindV::Object, games: Seq::empty(), rest: Seq::empty() },
            RootV::Object,
        ),
    }
}

fn part_to_field(p: &JsonPart) -> (r: Field)
    ensures
        r@ == part_field(p@),
{
    match p {
        JsonPart::Null => Field::Null,
        JsonPart::Str(s) => Field::Str(s.clone()),
        JsonPart::Other(t) => Field::Raw(t.clone()),
    }
}

fn field_at(ms: &Vec<(String, JsonPart)>, k: &str) -> (r: Field)
    ensures
        r@ == member_field(entries_view(ms@), k@),
{
    proof {
        lemma_index_of(entries_view(ms@), k@);
    }
    let len = ms.len();
    assert(entries_view(ms@).len() == len);
    match find_key(ms, k) {
        Some(i) => {
            assert(entries_view(ms@)[i as int] == (ms@[i as int].0@, ms@[i as int].1@));
            assert(index_of(entries_view(ms@), k@) == Some(i as int));
            assert(lookup(entries_view(ms@), k@) == Some(ms@[i as int].1@));
            part_to_field(&ms[i].1)
        },
        None => Field::Absent,
    }
}

fn is_known_key(k: &str, game: bool) -> (r: bool)
    ensures
        r == known_key(k@, game),
{
    if game {
        str_eq(k, "name") || str_eq(k, "content") || str_eq(k, "scope") || str_eq(k, "_scope") || str_eq(k, "owner")
            || str_eq(k, "created") || str_eq(k, "updated") || str_eq(k, "version") || str_eq(k, "game_id")
            || str_eq(k, "checksum") || str_eq(k, "forked_from")
    } else {
        str_eq(k, "active") || str_eq(k, "games")
    }
}

fn rest_members(ms: &Vec<(String, JsonPart)>, game: bool) -> (r: Vec<(String, String)>)
    ensures
        entries_view(r@) == rest_of(entries_view(ms@), ms@.len(), game),
{
    let ghost mv = entries_view(ms@);
    let mut out: Vec<(String, String)> = Vec::new();
    let mut i: usize = 0;
    while i < ms.len()
        invariant
            i <= ms.len(),
            mv == entries_view(ms@),
            entries_view(out@) == rest_of(mv, i as nat, game),
        decreases ms.len() - i,
    {
        assert(mv[i as int] == (ms@[i as int].0@, ms@[i as int].1@));
        if !is_known_key(ms[i].0.as_str(), game) {
            let ghost before = out@;
            let k = ms[i].0.clone();
            let t = write_part(&ms[i].1);
            out.push((k, t));
            assert(entries_view(out@) =~= entries_view(before).push((mv[i as int].0, part_text(mv[i as int].1))));
        }
        i += 1;
    }
    out
}

fn game_from(ms: &Vec<(String, JsonPart)>) -> (r: Game)
    ensures
        r@ == game_of(entries_view(ms@)),
{
    Game {
        name: field_at(ms, "name"),
        content: field_at(ms, "content"),
        scope: field_at(ms, "scope"),
        scope_alt: field_at(ms, "_scope"),
        owner: field_at(ms, "owner"),
        created: field_at(ms, "created"),
        updated: field_at(ms, "updated"),
        version: field_at(ms, "version"),
        game_id: field_at(ms, "game_id"),
        checksum: field_at(ms, "checksum"),
        forked_from: field_at(ms, "forked_from"),
        rest: rest_members(ms, true),
    }
}

fn entry_from(p: &JsonPart) -> (r: Entry)
    ensures
        r@ == entry_of(p@),
{
    match p {
        JsonPart::Other(t) => match parse_json_document(t.as_str()) {
            Ok(JsonDoc::Object(gm)) => Entry::Game(game_from(&gm)),
            _ => Entry::Value(Field::Raw(t.clone())),
        },
        _ => Entry::Value(part_to_field(p)),
    }
}

fn games_from(ms: &Vec<(String, JsonPart)>) -> (r: (GamesKind, Vec<(String, Entry)>))
    ensures
        (r.0@, entries_view(r.1@)) == games_member(entries_view(ms@)),
        sorted_keys(entries_view(r.1@)),
        !(r.0@ is Object) ==> r.1@.len() == 0,
{
    proof {
        lemma_index_of(entries_view(ms@), "games"@);
    }
    let len = ms.len();
    assert(entries_view(ms@).len() == len);
    match find_key(ms, "games") {
        None => (GamesKind::Absent, Vec::new()),
        Some(i) => {
        assert(entries_view(ms@)[i as int] == (ms@[i as int].0@, ms@[i as int].1@));
        assert(index_of(entries_view(ms@), "games"@) == Some(i as int));
        assert(lookup(entries_view(ms@), "games"@) == Some(ms@[i as int].1@));
        match &ms[i].1 {
            JsonPart::Null => (GamesKind::Null, Vec::new()),
            JsonPart::Str(s) => {
                let mut q = String::new();
                push_quoted(&mut q, s.as_str());
                (GamesKind::Other(q), Vec::new())
            },
            JsonPart::Other(t) => match parse_json_document(t.as_str()) {
                Ok(JsonDoc::Object(gs)) => {
                    let ghost gv = entries_view(gs@);
                    let mut out: Vec<(String, Entry)> = Vec::new();
                    let mut j: usize = 0;
                    while j < gs.len()
                        invariant
                            j <= gs.len(),
                            gv == entries_view(gs@),
                            sorted_keys(gv),
                            entries_view(out@) == gv.take(j as int).map_values(
                                |e: (Seq<char>, JsonPartV)| (e.0, entry_of(e.1)),
                            ),
                        decreases gs.len() - j,
                    {
                        assert(gv[j as int] == (gs@[j as int].0@, gs@[j as int].1@));
                        let ghost before = out@;
                        let k = gs[j].0.clone();
                        let e = entry_from(&gs[j].1);
                        out.push((k, e));
                        assert(entries_view(out@) =~= entries_view(before).push((gv[j as int].0, entry_of(gv[j as int].1))));
                        assert(entries_view(out@) =~= gv.take(j + 1).map_values(
                            |e: (Seq<char>, JsonPartV)| (e.0, entry_of(e.1)),
                        ));
                        j += 1;
                    }
                    let ghost ov = entries_view(out@);
                    assert(gv.take(gs.len() as int) =~= gv);
                    assert(sorted_keys(ov)) by {
                        assert forall|a: int, b: int| 0 <= a < b < ov.len() implies crate::keyorder::seq_less(
                            #[trigger] ov[a].0,
                            #[trigger] ov[b].0,
                        ) by {
                            assert(ov[a].0 == gv[a].0 && ov[b].0 == gv[b].0);
                        }
                    }
                    (GamesKind::Object, out)
                },
                _ => (GamesKind::Other(t.clone()), Vec::new()),
            },
        }
        },
    }
}

fn bare() -> (r: Collection)
    ensures
        r@ == bare_collection(),
{
    let games: Vec<(String, Entry)> = Vec::new();
    let rest: Vec<(String, String)> = Vec::new();
    let r = Collection { active: Field::Absent, kind: GamesKind::Absent, games, rest };
    assert(r@.games =~= Seq::<(Seq<char>, EntryV)>::empty());
    assert(r@.rest =~= Seq::<(Seq<char>, Seq<char>)>::empty());
    r
}

/// The collection a stored games document holds (see `collection_of`).
pub fn games_from_store(stored: Option<String>) -> (r: (Collection, Root))
    ensures
        (r.0@, root_view(r.1)) == collection_of(stored_doc(opt_chars(stored))),
        well_formed(r.0@),
{
    match read_stored(stored) {
        Stored::Doc(JsonDoc::Object(ms)) => {
            let (kind, games) = games_from(&ms);
            let c = Collection { active: field_at(&ms, "active"), kind, games, rest: rest_members(&ms, false) };
            (c, Root::Object)
        },
        Stored::Doc(JsonDoc::Scalar(JsonPart::Null)) => (bare(), Root::Null),
        Stored::Doc(JsonDoc::Scalar(p)) => (bare(), Root::Other(write_part(&p))),
        Stored::Doc(JsonDoc::Array(items)) => {
            let ghost iv = items@.map_values(|p: JsonPart| p@);
            let mut texts: Vec<String> = Vec::new();
            let mut i: usize = 0;
            while i < items.len()
                invariant
                    i <= items.len(),
                    iv == items@.map_values(|p: JsonPart| p@),
                    texts@.map_values(|t: String| t@) == iv.take(i as int).map_values(|p: JsonPartV| part_text(p)),
                decreases items.len() - i,
            {
                let t = write_part(&items[i]);
                let ghost before = texts@;
                texts.push(t);
                assert(texts@.map_values(|t: String| t@) =~= before.map_values(|t: String| t@).push(part_text(iv[i as int])));
                assert(texts@.map_values(|t: String| t@) =~= iv.take(i + 1).map_values(|p: JsonPartV| part_text(p)));
                i += 1;
            }
            assert(iv.take(items.len() as int) =~= iv);
            (bare(), Root::Other(write_array(&texts)))
        },
        _ => {
            let games: Vec<(String, Entry)> = Vec::new();
            let rest: Vec<(String, String)> = Vec::new();
            let c = Collection { active: Field::Null, kind: GamesKind::Object, games, rest };
            assert(c@.games =~= Seq::<(Seq<char>, EntryV)>::empty());
            assert(c@.rest =~= Seq::<(Seq<char>, Seq<char>)>::empty());
            (c, Root::Object)
        },
    }
}

// ───────────────────────── writing the collection ─────────────────────────

/// The text `null`.
pub open spec fn null_text() -> Seq<char> {
    seq!['n', 'u', 'l', 'l']
}

fn null_string() -> (r: String)
    ensures
        r@ == null_text(),
{
    let mut s = String::new();
    push_char(&mut s, 'n');
    push_char(&mut s, 'u');
    push_char(&mut s, 'l');
    push_char(&mut s, 'l');
    s
}

/// A field's JSON text (what is absent reads as null).
pub open spec fn value_text(f: FieldV) -> Seq<char> {
    match f {
        FieldV::Absent => null_text(),
        FieldV::Null => null_text(),
        FieldV::Str(s) => quoted(s),
        FieldV::Raw(t) => t,
    }
}

/// The members with field `f` set under `k` (nothing for an absent field).
pub open spec fn field_put(es: Seq<(Seq<char>, Seq<char>)>, k: Seq<char>, f: FieldV) -> Seq<(Seq<char>, Seq<char>)> {
    if f is Absent { es } else { put(es, k, value_text(f)) }
}

/// A game's members: its other members with every present field put in.
pub open spec fn game_entries(g: GameV) -> Seq<(Seq<char>, Seq<char>)> {
    field_put(field_put(field_put(field_put(field_put(field_put(field_put(field_put(field_put(field_put(field_put(
        g.rest, "name"@, g.name), "content"@, g.content), "scope"@, g.scope), "_scope"@, g.scope_alt), "owner"@, g.owner),
        "created"@, g.created), "updated"@, g.updated), "version"@, g.version), "game_id"@, g.game_id), "checksum"@,
        g.checksum), "forked_from"@, g.forked_from)
}

/// A member of `games` as JSON text.
pub open spec fn entry_text(e: EntryV) -> Seq<char> {
    match e {
        EntryV::Game(g) => object_text(game_entries(g)),
        EntryV::Value(f) => value_text(f),
    }
}

/// The root's members: its other members with `games` and `active` put in.
pub open spec fn root_entries(c: CollectionV) -> Seq<(Seq<char>, Seq<char>)> {
    let with_games = match c.kind {
        GamesKindV::Absent => c.rest,
        GamesKindV::Null => put(c.rest, "games"@, null_text()),
        GamesKindV::Other(t) => put(c.rest, "games"@, t),
        GamesKindV::Object => put(
            c.rest,
            "games"@,
            object_text(c.games.map_values(|e: (Seq<char>, EntryV)| (e.0, entry_text(e.1)))),
        ),
    };
    field_put(with_games, "active"@, c.active)
}

/// The games document's text for a collection: a root that is not an object
/// is written back as it was; a null root with nothing set stays null.
pub open spec fn collection_text(c: CollectionV, root: RootV) -> Seq<char> {
    match root {
        RootV::Other(t) => t,
        RootV::Null => if c.active is Absent && c.kind is Absent && c.rest.len() == 0 {
            null_text()
        } else {
            object_text(root_entries(c))
        },
        RootV::Object => object_text(root_entries(c)),
    }
}

fn field_text(f: &Field) -> (r: String)
    ensures
        r@ == value_text(f@),
{
    match f {
        Field::Absent => null_string(),
        Field::Null => null_string(),
        Field::Str(s) => {
            let mut q = String::new();
            push_quoted(&mut q, s.as_str());
            q
        },
        Field::Raw(t) => t.clone(),
    }
}

fn put_field(es: &mut Vec<(String, String)>, k: &str, f: &Field)
    ensures
        entries_view(final(es)@) == field_put(entries_view(old(es)@), k@, f@),
{
    match f {
        Field::Absent => {},
        _ => {
            let t = field_text(f);
            put_entry(es, string_of(k), t);
        },
    }
}

fn game_text(g: &Game) -> (r: String)
    ensures
        r@ == object_text(game_entries(g@)),
{
    let mut es = crate::games::clone_pairs(&g.rest);
    put_field(&mut es, "name", &g.name);
    put_field(&mut es, "content", &g.content);
    put_field(&mut es, "scope", &g.scope);
    put_field(&mut es, "_scope", &g.scope_alt);
    put_field(&mut es, "owner", &g.owner);
    put_field(&mut es, "created", &g.created);
    put_field(&mut es, "updated", &g.updated);
    put_field(&mut es, "version", &g.version);
    put_field(&mut es, "game_id", &g.game_id);
    put_field(&mut es, "checksum", &g.checksum);
    put_field(&mut es, "forked_from", &g.forked_from);
    write_object(&es)
}

fn games_text(games: &Vec<(String, Entry)>) -> (r: String)
    ensures
        r@ == object_text(entries_view(games@).map_values(|e: (Seq<char>, EntryV)| (e.0, entry_text(e.1)))),
{
    let ghost gv = entries_view(games@);
    let mut es: Vec<(String, String)> = Vec::new();
    let mut i: usize = 0;
    while i < games.len()
        invariant
            i <= games.len(),
            gv == entries_view(games@),
            entries_view(es@) == gv.take(i as int).map_values(|e: (Seq<char>, EntryV)| (e.0, entry_text(e.1))),
        decreases games.len() - i,
    {
        assert(gv[i as int] == (games@[i as int].0@, games@[i as int].1@));
        let t = match &games[i].1 {
            Entry::Game(g) => game_text(g),
            Entry::Value(f) => field_text(f),
        };
        let k = games[i].0.clone();
        let ghost before = es@;
        es.push((k, t));
        assert(entries_view(es@) =~= entries_view(before).push((gv[i as int].0, entry_text(gv[i as int].1))));
        assert(entries_view(es@) =~= gv.take(i + 1).map_values(|e: (Seq<char>, EntryV)| (e.0, entry_text(e.1))));
        i += 1;
    }
    assert(gv.take(games.len() as int) =~= gv);
    write_object(&es)
}

/// The games document's text for a collection (see `collection_text`).
pub fn games_to_store(c: &Collection, root: &Root) -> (r: String)
    ensures
        r@ == collection_text(c@, root_view(*root)),
{
    match root {
        Root::Other(t) => t.clone(),
        _ => {
            let untouched = matches!(c.active, Field::Absent) && matches!(c.kind, GamesKind::Absent) && c.rest.len() == 0;
            if matches!(root, Root::Null) && untouched {
                return null_string();
            }
            let mut es = crate::games::clone_pairs(&c.rest);
            match &c.kind {
                GamesKind::Absent => {},
                GamesKind::Null => put_entry(&mut es, string_of("games"), null_string()),
                GamesKind::Other(t) => put_entry(&mut es, string_of("games"), t.clone()),
                GamesKind::Object => put_entry(&mut es, string_of("games"), games_text(&c.games)),
            }
            put_field(&mut es, "active", &c.active);
            write_object(&es)
        },
    }
}

// ───────────────────────── the voice transcript ─────────────────────────

/// The turns a stored transcript holds, as JSON texts: an array's elements;
/// anything else (missing, unreadable, not an array) holds none.
pub open spec fn turns_of(stored: StoredV) -> Seq<Seq<char>> {
    match stored {
        StoredV::Doc(JsonDocV::Array(items)) => items.map_values(|p: JsonPartV| part_text(p)),
        _ => Seq::empty(),
    }
}

fn part_texts(items: &Vec<JsonPart>) -> (r: Vec<String>)
    ensures
        r@.map_values(|t: String| t@) == items@.map_values(|p: JsonPart| p@).map_values(|p: JsonPartV| part_text(p)),
{
    let ghost iv = items@.map_values(|p: JsonPart| p@);
    let mut texts: Vec<String> = Vec::new();
    let mut i: usize = 0;
    while i < items.len()
        invariant
            i <= items.len(),
            iv == items@.map_values(|p: JsonPart| p@),
            texts@.map_values(|t: String| t@) == iv.take(i as int).map_values(|p: JsonPartV| part_text(p)),
        decreases items.len() - i,
    {
        let t = write_part(&items[i]);
        let ghost before = texts@;
        texts.push(t);
        assert(texts@.map_values(|t: String| t@) =~= before.map_values(|t: String| t@).push(part_text(iv[i as int])));
        assert(texts@.map_values(|t: String| t@) =~= iv.take(i + 1).map_values(|p: JsonPartV| part_text(p)));
        i += 1;
    }
    assert(iv.take(items.len() as int) =~= iv);
    texts
}

/// The turns of a stored transcript (see `turns_of`).
pub fn turns_from_store(stored: Option<String>) -> (r: Vec<String>)
    ensures
        r@.map_values(|t: String| t@) == turns_of(stored_doc(opt_chars(stored))),
{
    match read_stored(stored) {
        Stored::Doc(JsonDoc::Array(items)) => part_texts(&items),
        _ => {
            let r: Vec<String> = Vec::new();
            assert(r@.map_values(|t: String| t@) =~= Seq::<Seq<char>>::empty());
            r
        },
    }
}

/// One transcript turn as JSON text: `{"role":..,"text":..,"ts":..}`.
pub open spec fn turn_text(role: Seq<char>, text: Seq<char>, ts: Seq<char>) -> Seq<char> {
    object_text(seq![("role"@, quoted(role)), ("text"@, quoted(text)), ("ts"@, quoted(ts))])
}

fn quoted_string(s: &str) -> (r: String)
    ensures
        r@ == quoted(s@),
{
    let mut q = String::new();
    push_quoted(&mut q, s);
    q
}

fn pairs3(a: &str, av: String, b: &str, bv: String, c: &str, cv: String) -> (r: Vec<(String, String)>)
    ensures
        entries_view(r@) == seq![(a@, av@), (b@, bv@), (c@, cv@)],
{
    let mut es: Vec<(String, String)> = Vec::new();
    es.push((string_of(a), av));
    es.push((string_of(b), bv));
    es.push((string_of(c), cv));
    assert(entries_view(es@) =~= seq![(a@, av@), (b@, bv@), (c@, cv@)]);
    es
}

/// One transcript turn (see `turn_text`).
pub fn write_turn(role: &str, text: &str, ts: &str) -> (r: String)
    ensures
        r@ == turn_text(role@, text@, ts@),
{
    let es = pairs3("role", quoted_string(role), "text", quoted_string(text), "ts", quoted_string(ts));
    write_object(&es)
}

/// The stored transcript: the turns as a JSON array.
pub fn turns_to_store(turns: &Vec<String>) -> (r: String)
    ensures
        r@ == array_text(turns@.map_values(|t: String| t@)),
{
    write_array(turns)
}

// ───────────────────────── the revision index ─────────────────────────

/// The members of a stored revision index (game key, JSON text): an
/// object's members; anything else is an empty index.
pub open spec fn index_of_store(stored: StoredV) -> Seq<(Seq<char>, Seq<char>)> {
    match stored {
        StoredV::Doc(JsonDocV::Object(ms)) => ms.map_values(|e: (Seq<char>, JsonPartV)| (e.0, part_text(e.1))),
        _ => Seq::empty(),
    }
}

/// The stored revision index (see `index_of_store`).
pub fn index_from_store(stored: Option<String>) -> (r: Vec<(String, String)>)
    ensures
        entries_view(r@) == index_of_store(stored_doc(opt_chars(stored))),
{
    match read_stored(stored) {
        Stored::Doc(JsonDoc::Object(ms)) => {
            let ghost mv = entries_view(ms@);
            let mut out: Vec<(String, String)> = Vec::new();
            let mut i: usize = 0;
            while i < ms.len()
                invariant
                    i <= ms.len(),
                    mv == entries_view(ms@),
                    entries_view(out@) == mv.take(i as int).map_values(
                        |e: (Seq<char>, JsonPartV)| (e.0, part_text(e.1)),
                    ),
                decreases ms.len() - i,
            {
                assert(mv[i as int] == (ms@[i as int].0@, ms@[i as int].1@));
                let k = ms[i].0.clone();
                let t = write_part(&ms[i].1);
                let ghost before = out@;
                out.push((k, t));
                assert(entries_view(out@) =~= entries_view(before).push((mv[i as int].0, part_text(mv[i as int].1))));
                assert(entries_view(out@) =~= mv.take(i + 1).map_values(
                    |e: (Seq<char>, JsonPartV)| (e.0, part_text(e.1)),
                ));
                i += 1;
            }
            assert(mv.take(ms.len() as int) =~= mv);
            out
        },
        _ => {
            let r: Vec<(String, String)> = Vec::new();
            assert(entries_view(r@) =~= Seq::<(Seq<char>, Seq<char>)>::empty());
            r
        },
    }
}

/// The revisions of a game in the index, as JSON texts: the elements of its
/// array (none when the game has no entry or it is not an array).
pub open spec fn revisions_of(index: Seq<(Seq<char>, Seq<char>)>, key: Seq<char>) -> Seq<Seq<char>> {
    match lookup(index, key) {
        Some(t) => match json_document(t) {
            Ok(JsonDocV::Array(items)) => items.map_values(|p: JsonPartV| part_text(p)),
            _ => Seq::empty(),
        },
        None => Seq::empty(),
    }
}

/// The revisions of a game in the index (see `revisions_of`).
pub fn revisions_in(index: &Vec<(String, String)>, key: &str) -> (r: Vec<String>)
    ensures
        r@.map_values(|t: String| t@) == revisions_of(entries_view(index@), key@),
{
    proof {
        lemma_index_of(entries_view(index@), key@);
    }
    let len = index.len();
    assert(entries_view(index@).len() == len);
    let empty: Vec<String> = Vec::new();
    assert(empty@.map_values(|t: String| t@) =~= Seq::<Seq<char>>::empty());
    match find_key(index, key) {
        Some(i) => {
            assert(entries_view(index@)[i as int] == (index@[i as int].0@, index@[i as int].1@));
            assert(index_of(entries_view(index@), key@) == Some(i as int));
            match parse_json_document(index[i].1.as_str()) {
                Ok(JsonDoc::Array(items)) => part_texts(&items),
                _ => empty,
            }
        },
        None => empty,
    }
}

/// The id and path a revision entry records (when they are strings).
pub open spec fn meta_of(text: Seq<char>) -> (Option<Seq<char>>, Option<Seq<char>>) {
    match json_document(text) {
        Ok(JsonDocV::Object(ms)) => (
            match lookup(ms, "id"@) { Some(p) => crate::json::part_str(p), None => None },
            match lookup(ms, "path"@) { Some(p) => crate::json::part_str(p), None => None },
        ),
        _ => (None, None),
    }
}

fn str_member(ms: &Vec<(String, JsonPart)>, k: &str) -> (r: Option<String>)
    ensures
        opt_chars(r) == (match lookup(entries_view(ms@), k@) { Some(p) => crate::json::part_str(p), None => None }),
{
    proof {
        lemma_index_of(entries_view(ms@), k@);
    }
    let len = ms.len();
    assert(entries_view(ms@).len() == len);
    match find_key(ms, k) {
        Some(i) => {
            assert(entries_view(ms@)[i as int] == (ms@[i as int].0@, ms@[i as int].1@));
            assert(index_of(entries_view(ms@), k@) == Some(i as int));
            match &ms[i].1 {
                JsonPart::Str(s) => Some(s.clone()),
                _ => None,
            }
        },
        None => None,
    }
}

/// What the logic reads of a revision entry (see `meta_of`).
pub fn meta_from_text(text: &str) -> (r: crate::vcs::RevisionMeta)
    ensures
        (opt_chars(r.id), opt_chars(r.path)) == meta_of(text@),
{
    match parse_json_document(text) {
        Ok(JsonDoc::Object(ms)) => crate::vcs::RevisionMeta { id: str_member(&ms, "id"), path: str_member(&ms, "path") },
        _ => crate::vcs::RevisionMeta { id: None, path: None },
    }
}

/// A revision entry as JSON text.
pub open spec fn meta_text(
    id: Seq<char>,
    name: Seq<char>,
    version: Seq<char>,
    created: Seq<char>,
    length: nat,
    resource_count: nat,
    path: Seq<char>,
) -> Seq<char> {
    object_text(seq![
        ("created"@, quoted(created)),
        ("id"@, quoted(id)),
        ("length"@, crate::text::decimal(length)),
        ("name"@, quoted(name)),
        ("path"@, quoted(path)),
        ("resource_count"@, crate::text::decimal(resource_count)),
        ("version"@, quoted(version)),
    ])
}

/// A revision entry (see `meta_text`).
pub fn write_meta(
    id: &str,
    name: &str,
    version: &str,
    created: &str,
    length: usize,
    resource_count: usize,
    path: &str,
) -> (r: String)
    ensures
        r@ == meta_text(id@, name@, version@, created@, length as nat, resource_count as nat, path@),
{
    let mut es: Vec<(String, String)> = Vec::new();
    es.push((string_of("created"), quoted_string(created)));
    es.push((string_of("id"), quoted_string(id)));
    es.push((string_of("length"), crate::text::decimal_string(length as u64)));
    es.push((string_of("name"), quoted_string(name)));
    es.push((string_of("path"), quoted_string(path)));
    es.push((string_of("resource_count"), crate::text::decimal_string(resource_count as u64)));
    es.push((string_of("version"), quoted_string(version)));
    assert(entries_view(es@) =~= seq![
        ("created"@, quoted(created@)),
        ("id"@, quoted(id@)),
        ("length"@, crate::text::decimal(length as nat)),
        ("name"@, quoted(name@)),
        ("path"@, quoted(path@)),
        ("resource_count"@, crate::text::decimal(resource_count as nat)),
        ("version"@, quoted(version@)),
    ]);
    write_object(&es)
}

/// The stored index with game `key`'s revisions set to `revs`.
pub open spec fn index_text(index: Seq<(Seq<char>, Seq<char>)>, key: Seq<char>, revs: Seq<Seq<char>>) -> Seq<char> {
    object_text(put(index, key, array_text(revs)))
}

/// The stored index with a game's revisions replaced (see `index_text`).
pub fn index_to_store(index: &Vec<(String, String)>, key: &str, revs: &Vec<String>) -> (r: String)
    ensures
        r@ == index_text(entries_view(index@), key@, revs@.map_values(|t: String| t@)),
{
    let mut es = crate::games::clone_pairs(index);
    put_entry(&mut es, string_of(key), write_array(revs));
    write_object(&es)
}

// ───────────────────────── snapshots ─────────────────────────

/// A commit's resources as members, in key order.
pub open spec fn resource_members(rs: Seq<(Seq<char>, Seq<char>)>, n: nat) -> Seq<(Seq<char>, Seq<char>)>
    decreases n,
{
    if n == 0 || n > rs.len() {
        Seq::empty()
    } else {
        put(resource_members(rs, (n - 1) as nat), rs[n - 1].0, quoted(rs[n - 1].1))
    }
}

/// A revision snapshot as JSON text.
pub open spec fn snapshot_text(
    id: Seq<char>,
    game_key: Seq<char>,
    name: Seq<char>,
    version: Seq<char>,
    created: Seq<char>,
    content: Seq<char>,
    resources: Seq<(Seq<char>, Seq<char>)>,
) -> Seq<char> {
    object_text(seq![
        ("content"@, quoted(content)),
        ("created"@, quoted(created)),
        ("game_key"@, quoted(game_key)),
        ("id"@, quoted(id)),
        ("name"@, quoted(name)),
        ("resources"@, object_text(resource_members(resources, resources.len()))),
        ("version"@, quoted(version)),
    ])
}

/// A revision snapshot (see `snapshot_text`).
pub fn write_snapshot(
    id: &str,
    game_key: &str,
    name: &str,
    version: &str,
    created: &str,
    content: &str,
    resources: &Vec<(String, String)>,
) -> (r: String)
    ensures
        r@ == snapshot_text(id@, game_key@, name@, version@, created@, content@, entries_view(resources@)),
{
    let ghost rv = entries_view(resources@);
    let mut rs: Vec<(String, String)> = Vec::new();
    let mut i: usize = 0;
    assert(entries_view(rs@) =~= Seq::<(Seq<char>, Seq<char>)>::empty());
    while i < resources.len()
        invariant
            i <= resources.len(),
            rv == entries_view(resources@),
            entries_view(rs@) == resource_members(rv, i as nat),
        decreases resources.len() - i,
    {
        assert(rv[i as int] == (resources@[i as int].0@, resources@[i as int].1@));
        put_entry(&mut rs, resources[i].0.clone(), quoted_string(resources[i].1.as_str()));
        i += 1;
    }
    let mut es: Vec<(String, String)> = Vec::new();
    es.push((string_of("content"), quoted_string(content)));
    es.push((string_of("created"), quoted_string(created)));
    es.push((string_of("game_key"), quoted_string(game_key)));
    es.push((string_of("id"), quoted_string(id)));
    es.push((string_of("name"), quoted_string(name)));
    es.push((string_of("resources"), write_object(&rs)));
    es.push((string_of("version"), quoted_string(version)));
    assert(entries_view(es@) =~= seq![
        ("content"@, quoted(content@)),
        ("created"@, quoted(created@)),
        ("game_key"@, quoted(game_key@)),
        ("id"@, quoted(id@)),
        ("name"@, quoted(name@)),
        ("resources"@, object_text(resource_members(rv, rv.len()))),
        ("version"@, quoted(version@)),
    ]);
    write_object(&es)
}

/// Member `k` of a document, null when it is missing or the document is not
/// an object (as indexing a `serde_json::Value` reads it).
pub open spec fn doc_member(d: JsonDocV, k: Seq<char>) -> JsonPartV {
    match d {
        JsonDocV::Object(ms) => match lookup(ms, k) {
            Some(p) => p,
            None => JsonPartV::Null,
        },
        _ => JsonPartV::Null,
    }
}

/// Member `k` of a document (see `doc_member`).
pub fn member_of_doc(d: &JsonDoc, k: &str) -> (r: JsonPart)
    ensures
        r@ == doc_member(d@, k@),
{
    match d {
        JsonDoc::Object(ms) => {
            proof {
                lemma_index_of(entries_view(ms@), k@);
            }
            let len = ms.len();
            assert(entries_view(ms@).len() == len);
            match find_key(ms, k) {
                Some(i) => {
                    assert(entries_view(ms@)[i as int] == (ms@[i as int].0@, ms@[i as int].1@));
                    assert(index_of(entries_view(ms@), k@) == Some(i as int));
                    match &ms[i].1 {
                        JsonPart::Null => JsonPart::Null,
                        JsonPart::Str(s) => JsonPart::Str(s.clone()),
                        JsonPart::Other(t) => JsonPart::Other(t.clone()),
                    }
                },
                None => JsonPart::Null,
            }
        },
        _ => JsonPart::Null,
    }
}

// ───────────────────────── laws ─────────────────────────

/// Member `k` of a written object holds field `f`: its text when the field is
/// present, nothing when it is absent.
pub open spec fn holds_field(es: Seq<(Seq<char>, Seq<char>)>, k: Seq<char>, f: FieldV) -> bool {
    lookup(es, k) == (if f is Absent { None } else { Some(value_text(f)) })
}

proof fn lemma_field_put(es: Seq<(Seq<char>, Seq<char>)>, k: Seq<char>, f: FieldV)
    requires
        sorted_keys(es),
    ensures
        sorted_keys(field_put(es, k, f)),
        !(f is Absent) ==> lookup(field_put(es, k, f), k) == Some(value_text(f)),
        f is Absent ==> field_put(es, k, f) == es,
        forall|k2: Seq<char>| k2 != k ==> #[trigger] lookup(field_put(es, k, f), k2) == lookup(es, k2),
{
    if !(f is Absent) {
        crate::keyorder::lemma_put(es, k, value_text(f));
    }
}

/// Writing a game puts every field the game has under its own key, with the
/// field's JSON text, and no member for a field it lacks; its other members
/// are written as they are; the members come in key order. (So a game read
/// from the store and written back loses no field: a present `version` is
/// written as a `version` member.)
pub proof fn lemma_game_written_field_by_field(g: GameV)
    requires
        sorted_keys(g.rest),
        forall|i: int| 0 <= i < g.rest.len() ==> !known_key(#[trigger] g.rest[i].0, true),
    ensures
        sorted_keys(game_entries(g)),
        holds_field(game_entries(g), "name"@, g.name),
        holds_field(game_entries(g), "content"@, g.content),
        holds_field(game_entries(g), "scope"@, g.scope),
        holds_field(game_entries(g), "_scope"@, g.scope_alt),
        holds_field(game_entries(g), "owner"@, g.owner),
        holds_field(game_entries(g), "created"@, g.created),
        holds_field(game_entries(g), "updated"@, g.updated),
        holds_field(game_entries(g), "version"@, g.version),
        holds_field(game_entries(g), "game_id"@, g.game_id),
        holds_field(game_entries(g), "checksum"@, g.checksum),
        holds_field(game_entries(g), "forked_from"@, g.forked_from),
        forall|k: Seq<char>| !known_key(k, true) ==> #[trigger] lookup(game_entries(g), k) == lookup(g.rest, k),
{
    let keys = seq!["name"@, "content"@, "scope"@, "_scope"@, "owner"@, "created"@, "updated"@, "version"@,
        "game_id"@, "checksum"@, "forked_from"@];
    reveal_strlit("name");
    reveal_strlit("content");
    reveal_strlit("scope");
    reveal_strlit("_scope");
    reveal_strlit("owner");
    reveal_strlit("created");
    reveal_strlit("updated");
    reveal_strlit("version");
    reveal_strlit("game_id");
    reveal_strlit("checksum");
    reveal_strlit("forked_from");
    assert forall|a: int, b: int| 0 <= a < b < keys.len() implies keys[a] != keys[b] by {
        if keys[a].len() == keys[b].len() {
            assert(keys[a][0] != keys[b][0] || keys[a][1] != keys[b][1]);
        }
    }
    assert forall|k: Seq<char>| known_key(k, true) implies lookup(g.rest, k) is None by {
        crate::keyorder::lemma_index_of(g.rest, k);
        if let Some(i) = index_of(g.rest, k) {
            assert(g.rest[i].0 == k);
        }
    }
    let e0 = g.rest;
    let e1 = field_put(e0, keys[0], g.name);
    let e2 = field_put(e1, keys[1], g.content);
    let e3 = field_put(e2, keys[2], g.scope);
    let e4 = field_put(e3, keys[3], g.scope_alt);
    let e5 = field_put(e4, keys[4], g.owner);
    let e6 = field_put(e5, keys[5], g.created);
    let e7 = field_put(e6, keys[6], g.updated);
    let e8 = field_put(e7, keys[7], g.version);
    let e9 = field_put(e8, keys[8], g.game_id);
    let e10 = field_put(e9, keys[9], g.checksum);
    let e11 = field_put(e10, keys[10], g.forked_from);
    assert(game_entries(g) == e11);
    lemma_field_put(e0, keys[0], g.name);
    lemma_field_put(e1, keys[1], g.content);
    lemma_field_put(e2, keys[2], g.scope);
    lemma_field_put(e3, keys[3], g.scope_alt);
    lemma_field_put(e4, keys[4], g.owner);
    lemma_field_put(e5, keys[5], g.created);
    lemma_field_put(e6, keys[6], g.updated);
    lemma_field_put(e7, keys[7], g.version);
    lemma_field_put(e8, keys[8], g.game_id);
    lemma_field_put(e9, keys[9], g.checksum);
    lemma_field_put(e10, keys[10], g.forked_from);
    assert(known_key(keys[0], true) && known_key(keys[1], true) && known_key(keys[2], true) && known_key(keys[3], true)
        && known_key(keys[4], true) && known_key(keys[5], true) && known_key(keys[6], true) && known_key(keys[7], true)
        && known_key(keys[8], true) && known_key(keys[9], true) && known_key(keys[10], true));
}

proof fn lemma_rest_of(ms: Seq<(Seq<char>, JsonPartV)>, n: nat, game: bool)
    requires
        sorted_keys(ms),
        n <= ms.len(),
    ensures
        sorted_keys(rest_of(ms, n, game)),
        forall|i: int| 0 <= i < rest_of(ms, n, game).len() ==> !known_key(#[trigger] rest_of(ms, n, game)[i].0, game),
        forall|i: int| 0 <= i < rest_of(ms, n, game).len() ==> exists|j: int| 0 <= j < n && #[trigger] rest_of(ms, n, game)[i].0 == ms[j].0,
    decreases n,
{
    if n > 0 {
        lemma_rest_of(ms, (n - 1) as nat, game);
        let prev = rest_of(ms, (n - 1) as nat, game);
        if !known_key(ms[n - 1].0, game) {
            let r = prev.push((ms[n - 1].0, part_text(ms[n - 1].1)));
            assert forall|a: int, b: int| 0 <= a < b < r.len() implies crate::keyorder::seq_less(#[trigger] r[a].0, #[trigger] r[b].0) by {
                if b == r.len() - 1 {
                    let j = choose|j: int| 0 <= j < n - 1 && #[trigger] prev[a].0 == ms[j].0;
                    assert(crate::keyorder::seq_less(ms[j].0, ms[n - 1].0));
                } else {
                    assert(r[a] == prev[a] && r[b] == prev[b]);
                }
            }
            assert forall|i: int| 0 <= i < r.len() implies exists|j: int| 0 <= j < n && #[trigger] r[i].0 == ms[j].0 by {
                if i == r.len() - 1 {
                    assert(r[i].0 == ms[n - 1].0);
                } else {
                    let j = choose|j: int| 0 <= j < n - 1 && #[trigger] prev[i].0 == ms[j].0;
                    assert(r[i].0 == ms[j].0);
                }
            }
        } else {
            assert forall|i: int| 0 <= i < prev.len() implies exists|j: int| 0 <= j < n && #[trigger] prev[i].0 == ms[j].0 by {
                let j = choose|j: int| 0 <= j < n - 1 && #[trigger] prev[i].0 == ms[j].0;
            }
        }
    }
}

/// A game read from an object (whose keys come in order, as the store's
/// parser gives them) keeps its other members in key order and without any
/// key the game model reads, so writing it back puts every field it has
/// under its own key (see `lemma_game_written_field_by_field`).
pub proof fn lemma_read_game_can_be_written(ms: Seq<(Seq<char>, JsonPartV)>)
    requires
        sorted_keys(ms),
    ensures
        sorted_keys(game_of(ms).rest),
        forall|i: int| 0 <= i < game_of(ms).rest.len() ==> !known_key(#[trigger] game_of(ms).rest[i].0, true),
{
    lemma_rest_of(ms, ms.len(), true);
}

/// The text written for a present field is the text of a JSON value that
/// reads back as that very field: a string literal for a string, `null` for
/// null, and a carried value's own text.
pub proof fn lemma_field_text_reads_back(f: FieldV)
    requires
        !(f is Absent),
    ensures
        exists|p: JsonPartV| #[trigger] part_field(p) == f && part_text(p) == value_text(f),
{
    let p = match f {
        FieldV::Null => JsonPartV::Null,
        FieldV::Str(t) => JsonPartV::Str(t),
        FieldV::Raw(t) => JsonPartV::Other(t),
        FieldV::Absent => JsonPartV::Null,
    };
    assert(part_field(p) == f && part_text(p) == value_text(f));
}

} // verus!
