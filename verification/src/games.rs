//! The canvas games collection: which game is active, each game's content and
//! bookkeeping fields, and what every canvas action does to them.
//!
//! The collection is a JSON document `{"active": .., "games": {id: game}}`.
//! Values the logic never inspects are carried as their JSON text.

use vstd::prelude::*;
use crate::keyorder::{
    entries_view, find_key, index_of, lemma_index_of, lemma_put, lemma_remove, lemma_unique_index,
    lookup, put, put_entry, remove_entry, remove_key, sorted_keys,
};
use crate::text::{append, decimal, decimal_string, str_eq, string_of, utf8_len, byte_len};

verus! {

broadcast use vstd::string::group_string_axioms;

// ───────────────────────── data ─────────────────────────

/// A JSON member as the logic sees it: absent, null, a string, or another
/// value that the caller holds under a handle.
pub enum Field {
    Absent,
    Null,
    Str(String),
    /// Another value, as its JSON text.
    Raw(String),
}

/// The plain value of a `Field`.
pub enum FieldV {
    Absent,
    Null,
    Str(Seq<char>),
    Raw(Seq<char>),
}

impl View for Field {
    type V = FieldV;

    open spec fn view(&self) -> FieldV {
        match self {
            Field::Absent => FieldV::Absent,
            Field::Null => FieldV::Null,
            Field::Str(s) => FieldV::Str(s@),
            Field::Raw(t) => FieldV::Raw(t@),
        }
    }
}

/// A game object: the members the canvas reads and writes, and a handle for
/// its other members (key and JSON text, in key order).
pub struct Game {
    pub name: Field,
    pub content: Field,
    pub scope: Field,
    pub scope_alt: Field,
    pub owner: Field,
    pub created: Field,
    pub updated: Field,
    pub version: Field,
    pub game_id: Field,
    pub checksum: Field,
    pub forked_from: Field,
    pub rest: Vec<(String, String)>,
}

/// The plain value of a `Game`.
pub struct GameV {
    pub name: FieldV,
    pub content: FieldV,
    pub scope: FieldV,
    pub scope_alt: FieldV,
    pub owner: FieldV,
    pub created: FieldV,
    pub updated: FieldV,
    pub version: FieldV,
    pub game_id: FieldV,
    pub checksum: FieldV,
    pub forked_from: FieldV,
    pub rest: Seq<(Seq<char>, Seq<char>)>,
}

impl View for Game {
    type V = GameV;

    open spec fn view(&self) -> GameV {
        GameV {
            name: self.name@,
            content: self.content@,
            scope: self.scope@,
            scope_alt: self.scope_alt@,
            owner: self.owner@,
            created: self.created@,
            updated: self.updated@,
            version: self.version@,
            game_id: self.game_id@,
            checksum: self.checksum@,
            forked_from: self.forked_from@,
            rest: entries_view(self.rest@),
        }
    }
}

/// A member of the games object: a game, or a value that is not an object.
pub enum Entry {
    Game(Game),
    Value(Field),
}

/// The plain value of an `Entry`.
pub enum EntryV {
    Game(GameV),
    Value(FieldV),
}

impl View for Entry {
    type V = EntryV;

    open spec fn view(&self) -> EntryV {
        match self {
            Entry::Game(g) => EntryV::Game(g@),
            Entry::Value(f) => EntryV::Value(f@),
        }
    }
}

/// What the collection's `games` member is.
pub enum GamesKind {
    Absent,
    Null,
    Object,
    /// Some other value, as its JSON text.
    Other(String),
}

/// The plain value of a `GamesKind`.
pub enum GamesKindV {
    Absent,
    Null,
    Object,
    Other(Seq<char>),
}

impl View for GamesKind {
    type V = GamesKindV;

    open spec fn view(&self) -> GamesKindV {
        match self {
            GamesKind::Absent => GamesKindV::Absent,
            GamesKind::Null => GamesKindV::Null,
            GamesKind::Object => GamesKindV::Object,
            GamesKind::Other(t) => GamesKindV::Other(t@),
        }
    }
}

/// The games collection.
pub struct Collection {
    /// The `active` member.
    pub active: Field,
    /// What `games` is.
    pub kind: GamesKind,
    /// The members of `games`, in key order (none unless it is an object).
    pub games: Vec<(String, Entry)>,
    /// The collection's other members, if it has any.
    pub rest: Vec<(String, String)>,
}

/// The plain value of a `Collection`.
pub struct CollectionV {
    pub active: FieldV,
    pub kind: GamesKindV,
    pub games: Seq<(Seq<char>, EntryV)>,
    pub rest: Seq<(Seq<char>, Seq<char>)>,
}

impl View for Collection {
    type V = CollectionV;

    open spec fn view(&self) -> CollectionV {
        CollectionV {
            active: self.active@,
            kind: self.kind@,
            games: entries_view(self.games@),
            rest: entries_view(self.rest@),
        }
    }
}

/// Games keyed once each, in key order, and none unless `games` is an object.
pub open spec fn well_formed(c: CollectionV) -> bool {
    &&& sorted_keys(c.games)
    &&& (!(c.kind is Object) ==> c.games.len() == 0)
}

// ───────────────────────── reading ─────────────────────────

/// A member's text when it is a string.
pub open spec fn as_str(f: FieldV) -> Option<Seq<char>> {
    match f {
        FieldV::Str(s) => Some(s),
        _ => None,
    }
}

/// A member's text when it is a string, else `default`.
pub open spec fn str_or(f: FieldV, default: Seq<char>) -> Seq<char> {
    match f {
        FieldV::Str(s) => s,
        _ => default,
    }
}

/// The game object under `id`, if that member is an object.
pub open spec fn game_at(c: CollectionV, id: Seq<char>) -> Option<GameV> {
    match lookup(c.games, id) {
        Some(EntryV::Game(g)) => Some(g),
        _ => None,
    }
}

/// The active id's text, "" when `active` is not a string.
pub open spec fn active_id(c: CollectionV) -> Seq<char> {
    str_or(c.active, Seq::empty())
}

/// A game's scope: `scope`, else `_scope`, else "internal".
pub open spec fn scope_of(g: GameV) -> Seq<char> {
    match g.scope {
        FieldV::Str(s) => s,
        _ => str_or(g.scope_alt, "internal"@),
    }
}

/// A game's name, `default` when it has none or there is no game.
pub open spec fn name_of(g: Option<GameV>, default: Seq<char>) -> Seq<char> {
    match g {
        Some(g) => str_or(g.name, default),
        None => default,
    }
}

/// A game's content, "" when it has none or there is no game.
pub open spec fn content_of(g: Option<GameV>) -> Seq<char> {
    match g {
        Some(g) => str_or(g.content, Seq::empty()),
        None => Seq::empty(),
    }
}

/// A game's version, "" when it has none or there is no game.
pub open spec fn version_of(g: Option<GameV>) -> Seq<char> {
    match g {
        Some(g) => str_or(g.version, Seq::empty()),
        None => Seq::empty(),
    }
}

/// What `get` reads: the content of the game under the active id.
pub open spec fn active_content(c: CollectionV) -> Seq<char> {
    content_of(game_at(c, active_id(c)))
}

/// The content mirrored into the canvas page file when the collection is
/// written: the active game's content, when `active` is a string and that
/// game's content is a string.
pub open spec fn mirrored_content(c: CollectionV) -> Option<Seq<char>> {
    match c.active {
        FieldV::Str(id) => match game_at(c, id) {
            Some(g) => as_str(g.content),
            None => None,
        },
        _ => None,
    }
}

// ───────────────────────── writing ─────────────────────────

/// A string member.
pub open spec fn s(t: Seq<char>) -> FieldV {
    FieldV::Str(t)
}

/// A new game object as the canvas creates it.
pub open spec fn new_game(name: Seq<char>, content: Seq<char>, version: FieldV, ts: Seq<char>) -> GameV {
    GameV {
        name: s(name),
        content: s(content),
        scope: s("internal"@),
        scope_alt: s("internal"@),
        owner: s("local"@),
        created: s(ts),
        updated: s(ts),
        version,
        game_id: FieldV::Absent,
        checksum: FieldV::Absent,
        forked_from: FieldV::Absent,
        rest: Seq::empty(),
    }
}

/// The collection with game `g` under `id` (and `games` an object).
pub open spec fn with_game(c: CollectionV, id: Seq<char>, g: GameV) -> CollectionV {
    CollectionV { kind: GamesKindV::Object, games: put(c.games, id, EntryV::Game(g)), ..c }
}

/// The candidate id for a fork: `<stamp>f`, then `<stamp>f2`, `<stamp>f3`, ...
pub open spec fn fork_candidate(stamp: Seq<char>, n: nat) -> Seq<char> {
    if n <= 1 {
        stamp + "f"@
    } else {
        stamp + "f"@ + decimal(n)
    }
}

/// `n` is the first candidate number whose id holds no game.
pub open spec fn first_free(c: CollectionV, stamp: Seq<char>, n: nat) -> bool {
    &&& n >= 1
    &&& game_at(c, fork_candidate(stamp, n)) is None
    &&& forall|m: nat| 1 <= m < n ==> #[trigger] game_at(c, fork_candidate(stamp, m)) is Some
}

/// The id a fork takes.
pub open spec fn fork_id(c: CollectionV, stamp: Seq<char>) -> Seq<char> {
    fork_candidate(stamp, choose|n: nat| first_free(c, stamp, n))
}

/// The internal copy of an external game.
pub open spec fn forked_game(g: GameV, from: Seq<char>, ts: Seq<char>) -> GameV {
    GameV {
        scope: s("internal"@),
        scope_alt: s("internal"@),
        forked_from: s(from),
        created: if g.created is Absent || g.created is Null { s(ts) } else { g.created },
        updated: s(ts),
        ..g
    }
}

/// Before a change, an external active game is forked into an internal one,
/// which becomes active. Gives the collection and the active id (none when
/// `active` is not a string).
pub open spec fn ensure_internal(c: CollectionV, ts: Seq<char>, stamp: Seq<char>) -> (CollectionV, Option<Seq<char>>) {
    match c.active {
        FieldV::Str(aid) => match game_at(c, aid) {
            Some(g) => if scope_of(g) == "external"@ {
                let nid = fork_id(c, stamp);
                (CollectionV { active: s(nid), ..with_game(c, nid, forked_game(g, aid, ts)) }, Some(nid))
            } else {
                (c, Some(aid))
            },
            None => (c, Some(aid)),
        },
        _ => (c, None),
    }
}

// ───────────────────────── small exec helpers ─────────────────────────

/// A copy of a member.
pub fn clone_field(f: &Field) -> (r: Field)
    ensures
        r@ == f@,
{
    match f {
        Field::Absent => Field::Absent,
        Field::Null => Field::Null,
        Field::Str(t) => Field::Str(t.clone()),
        Field::Raw(t) => Field::Raw(t.clone()),
    }
}

/// A copy of a list of (key, text) members.
pub fn clone_pairs(es: &Vec<(String, String)>) -> (r: Vec<(String, String)>)
    ensures
        entries_view(r@) == entries_view(es@),
{
    let mut out: Vec<(String, String)> = Vec::new();
    let mut i: usize = 0;
    while i < es.len()
        invariant
            i <= es.len(),
            entries_view(out@) == entries_view(es@).take(i as int),
        decreases es.len() - i,
    {
        let ghost before = out@;
        let k = es[i].0.clone();
        let v = es[i].1.clone();
        assert(k@ == es@[i as int].0@ && v@ == es@[i as int].1@);
        out.push((k, v));
        assert(entries_view(out@) =~= entries_view(before).push((k@, v@)));
        assert(entries_view(es@)[i as int] == (k@, v@));
        assert(entries_view(es@).take(i + 1) =~= entries_view(es@).take(i as int).push((k@, v@)));
        i += 1;
    }
    assert(entries_view(es@).take(es.len() as int) =~= entries_view(es@));
    out
}

/// A copy of a game.
pub fn clone_game(g: &Game) -> (r: Game)
    ensures
        r@ == g@,
{
    Game {
        name: clone_field(&g.name),
        content: clone_field(&g.content),
        scope: clone_field(&g.scope),
        scope_alt: clone_field(&g.scope_alt),
        owner: clone_field(&g.owner),
        created: clone_field(&g.created),
        updated: clone_field(&g.updated),
        version: clone_field(&g.version),
        game_id: clone_field(&g.game_id),
        checksum: clone_field(&g.checksum),
        forked_from: clone_field(&g.forked_from),
        rest: clone_pairs(&g.rest),
    }
}

fn str_field(t: &str) -> (r: Field)
    ensures
        r@ == FieldV::Str(t@),
{
    Field::Str(string_of(t))
}

fn field_str(f: &Field) -> (r: Option<String>)
    ensures
        crate::args::opt_chars(r) == as_str(f@),
{
    match f {
        Field::Str(t) => Some(t.clone()),
        _ => None,
    }
}

fn field_str_or(f: &Field, default: &str) -> (r: String)
    ensures
        r@ == str_or(f@, default@),
{
    match f {
        Field::Str(t) => t.clone(),
        _ => string_of(default),
    }
}

/// The game object under `id`, if that member is an object.
pub fn game_ref<'a>(c: &'a Collection, id: &str) -> (r: Option<&'a Game>)
    ensures
        match game_at(c@, id@) {
            Some(g) => r matches Some(x) && x@ == g,
            None => r is None,
        },
{
    proof {
        lemma_index_of(c@.games, id@);
    }
    let len = c.games.len();
    assert(c@.games.len() == len);
    match find_key(&c.games, id) {
        Some(i) => match &c.games[i].1 {
            Entry::Game(g) => Some(g),
            Entry::Value(_) => None,
        },
        None => None,
    }
}

fn new_game_exec(name: &str, content: &str, version: Field, ts: &str) -> (r: Game)
    ensures
        r@ == new_game(name@, content@, version@, ts@),
{
    let rest: Vec<(String, String)> = Vec::new();
    assert(entries_view(rest@) =~= Seq::<(Seq<char>, Seq<char>)>::empty());
    Game {
        name: str_field(name),
        content: str_field(content),
        scope: str_field("internal"),
        scope_alt: str_field("internal"),
        owner: str_field("local"),
        created: str_field(ts),
        updated: str_field(ts),
        version,
        game_id: Field::Absent,
        checksum: Field::Absent,
        forked_from: Field::Absent,
        rest,
    }
}

/// Puts game `g` under `id`, making `games` an object.
fn set_game(c: &mut Collection, id: String, g: Game)
    requires
        well_formed(old(c)@),
        !(old(c)@.kind is Other),
    ensures
        well_formed(final(c)@),
        final(c)@ == with_game(old(c)@, id@, g@),
{
    proof {
        lemma_put(old(c)@.games, id@, EntryV::Game(g@));
    }
    let ghost gv = g@;
    put_entry(&mut c.games, id, Entry::Game(g));
    c.kind = GamesKind::Object;
}

/// The candidate id for fork number `n`.
fn fork_candidate_exec(stamp: &str, n: u64) -> (r: String)
    ensures
        r@ == fork_candidate(stamp@, n as nat),
{
    let mut id = string_of(stamp);
    append(&mut id, "f");
    if n > 1 {
        append(&mut id, decimal_string(n).as_str());
    }
    id
}

proof fn lemma_candidates_distinct(stamp: Seq<char>, a: nat, b: nat)
    requires
        1 <= a < b,
    ensures
        fork_candidate(stamp, a) != fork_candidate(stamp, b),
{
    let pre = stamp + "f"@;
    crate::number::lemma_decimal_digits(b);
    if a == 1 {
        assert(fork_candidate(stamp, b).len() > pre.len());
    } else {
        crate::number::lemma_decimal_digits(a);
        if fork_candidate(stamp, a) == fork_candidate(stamp, b) {
            let x = fork_candidate(stamp, a);
            assert(decimal(a) =~= x.skip(pre.len() as int));
            assert(decimal(b) =~= x.skip(pre.len() as int));
        }
    }
}

/// The game keys that some candidate `1..n` names.
spec fn used_keys(c: CollectionV, stamp: Seq<char>, n: nat) -> Set<Seq<char>> {
    Set::new(|k: Seq<char>| exists|m: nat| 1 <= m < n && k == #[trigger] fork_candidate(stamp, m) && game_at(c, k) is Some)
}

proof fn lemma_used_keys_bounded(c: CollectionV, stamp: Seq<char>, n: nat)
    requires
        well_formed(c),
    ensures
        used_keys(c, stamp, n).subset_of(crate::keyorder::keys_of(c.games).to_set()),
        used_keys(c, stamp, n).finite(),
        used_keys(c, stamp, n).len() <= c.games.len(),
{
    let u = used_keys(c, stamp, n);
    let ks = crate::keyorder::keys_of(c.games);
    assert forall|k: Seq<char>| u.contains(k) implies ks.to_set().contains(k) by {
        lemma_index_of(c.games, k);
        let i = index_of(c.games, k)->0;
        assert(ks[i] == k);
    }
    ks.lemma_cardinality_of_set();
    vstd::set_lib::lemma_len_subset(u, ks.to_set());
}

proof fn lemma_used_keys_grow(c: CollectionV, stamp: Seq<char>, n: nat)
    requires
        n >= 1,
        game_at(c, fork_candidate(stamp, n)) is Some,
    ensures
        used_keys(c, stamp, n + 1) == used_keys(c, stamp, n).insert(fork_candidate(stamp, n)),
        !used_keys(c, stamp, n).contains(fork_candidate(stamp, n)),
{
    let k = fork_candidate(stamp, n);
    if used_keys(c, stamp, n).contains(k) {
        let m = choose|m: nat| 1 <= m < n && k == #[trigger] fork_candidate(stamp, m) && game_at(c, k) is Some;
        lemma_candidates_distinct(stamp, m, n);
    }
    assert(used_keys(c, stamp, n + 1) =~= used_keys(c, stamp, n).insert(k));
}

proof fn lemma_first_free_unique(c: CollectionV, stamp: Seq<char>, a: nat, b: nat)
    requires
        first_free(c, stamp, a),
        first_free(c, stamp, b),
    ensures
        a == b,
{
    if a < b {
        assert(game_at(c, fork_candidate(stamp, a)) is Some);
    }
    if b < a {
        assert(game_at(c, fork_candidate(stamp, b)) is Some);
    }
}

/// `ensure_internal` as code: forks an external active game.
pub fn ensure_internal_active(c: &mut Collection, ts: &str, stamp: &str) -> (r: Option<String>)
    requires
        well_formed(old(c)@),
        old(c)@.games.len() < usize::MAX,
    ensures
        well_formed(final(c)@),
        final(c)@ == ensure_internal(old(c)@, ts@, stamp@).0,
        crate::args::opt_chars(r) == ensure_internal(old(c)@, ts@, stamp@).1,
        final(c)@.kind == old(c)@.kind,
{
    let aid = match &c.active {
        Field::Str(a) => a.clone(),
        _ => return None,
    };
    let g = match game_ref(c, aid.as_str()) {
        Some(g) => clone_game(g),
        None => return Some(aid),
    };
    let scope = match &g.scope {
        Field::Str(t) => t.clone(),
        _ => field_str_or(&g.scope_alt, "internal"),
    };
    if !str_eq(scope.as_str(), "external") {
        return Some(aid);
    }
    let ghost c0 = c@;
    let mut n: u64 = 1;
    let mut nid = fork_candidate_exec(stamp, 1);
    proof {
        assert(used_keys(c0, stamp@, 1) =~= Set::empty());
        lemma_used_keys_bounded(c0, stamp@, 1);
    }
    while game_ref(c, nid.as_str()).is_some()
        invariant
            c@ == c0,
            well_formed(c0),
            n >= 1,
            nid@ == fork_candidate(stamp@, n as nat),
            forall|m: nat| 1 <= m < n ==> #[trigger] game_at(c0, fork_candidate(stamp@, m)) is Some,
            used_keys(c0, stamp@, n as nat).len() == n - 1,
            used_keys(c0, stamp@, n as nat).finite(),
            n <= c0.games.len() + 1,
            c0.games.len() < usize::MAX,
        decreases c0.games.len() + 1 - n,
    {
        proof {
            lemma_used_keys_grow(c0, stamp@, n as nat);
            lemma_used_keys_bounded(c0, stamp@, (n + 1) as nat);
        }
        n = n + 1;
        nid = fork_candidate_exec(stamp, n);
    }
    proof {
        lemma_used_keys_bounded(c0, stamp@, n as nat);
        assert(first_free(c0, stamp@, n as nat));
        let k = choose|k: nat| first_free(c0, stamp@, k);
        lemma_first_free_unique(c0, stamp@, k, n as nat);
        assert(nid@ == fork_id(c0, stamp@));
    }
    let mut forked = g;
    forked.scope = str_field("internal");
    forked.scope_alt = str_field("internal");
    forked.forked_from = Field::Str(aid.clone());
    match forked.created {
        Field::Absent | Field::Null => {
            forked.created = str_field(ts);
        },
        _ => {},
    }
    forked.updated = str_field(ts);
    set_game(c, nid.clone(), forked);
    c.active = Field::Str(nid.clone());
    Some(nid)
}

} // verus!

verus! {

// ───────────────────────── actions: specifications ─────────────────────────

/// The game a content change goes to: the active game when it is an object.
pub open spec fn store_content(c1: CollectionV, aid: Option<Seq<char>>, content: Seq<char>, ts: Seq<char>, stamp: Seq<char>) -> CollectionV {
    match aid {
        Some(id) => match game_at(c1, id) {
            Some(g) => with_game(c1, id, GameV { content: s(content), updated: s(ts), scope: s("internal"@), scope_alt: s("internal"@), ..g }),
            None => created_with(c1, content, ts, stamp),
        },
        None => created_with(c1, content, ts, stamp),
    }
}

/// A new untitled game holding `content`, made active under id `stamp`.
pub open spec fn created_with(c1: CollectionV, content: Seq<char>, ts: Seq<char>, stamp: Seq<char>) -> CollectionV {
    CollectionV { active: s(stamp), ..with_game(c1, stamp, new_game("untitled"@, content, FieldV::Absent, ts)) }
}

/// `set`: the active game's content becomes `content` (a new game is made
/// when there is none).
pub open spec fn set_next(c: CollectionV, content: Seq<char>, ts: Seq<char>, stamp: Seq<char>) -> CollectionV {
    let (c1, aid) = ensure_internal(c, ts, stamp);
    store_content(c1, aid, content, ts, stamp)
}

/// What `append` stores: the active game's string content followed by `content`.
pub open spec fn appended_text(c1: CollectionV, aid: Option<Seq<char>>, content: Seq<char>) -> Seq<char> {
    match aid {
        Some(id) => match game_at(c1, id) {
            Some(g) => match g.content {
                FieldV::Str(e) => e + content,
                _ => content,
            },
            None => content,
        },
        None => content,
    }
}

/// `append`: `content` is added to the end of the active game's content.
pub open spec fn append_next(c: CollectionV, content: Seq<char>, ts: Seq<char>, stamp: Seq<char>) -> CollectionV {
    let (c1, aid) = ensure_internal(c, ts, stamp);
    store_content(c1, aid, appended_text(c1, aid, content), ts, stamp)
}

/// `clear`: the active game's content becomes empty.
pub open spec fn clear_next(c: CollectionV, ts: Seq<char>, stamp: Seq<char>) -> (CollectionV, bool) {
    let (c1, aid) = ensure_internal(c, ts, stamp);
    match aid {
        Some(id) => match game_at(c1, id) {
            Some(g) => (with_game(c1, id, GameV { content: s(""@), updated: s(ts), ..g }), true),
            None => (c1, false),
        },
        None => (c1, false),
    }
}

/// `new`: an empty game named `name` becomes active under id `stamp`.
pub open spec fn new_next(c: CollectionV, name: Seq<char>, version: Seq<char>, ts: Seq<char>, stamp: Seq<char>) -> CollectionV {
    CollectionV { active: s(stamp), ..with_game(c, stamp, new_game(name, ""@, s(version), ts)) }
}

/// The collection with game `id` renamed.
pub open spec fn renamed(c1: CollectionV, id: Seq<char>, name: Seq<char>, ts: Seq<char>) -> CollectionV {
    with_game(c1, id, GameV { name: s(name), updated: s(ts), ..game_at(c1, id)->0 })
}

/// The game a rename targets, and the collection it starts from: the given
/// id, or (when none is given) the active game after forking.
pub open spec fn rename_base(c: CollectionV, target: Seq<char>, ts: Seq<char>, stamp: Seq<char>) -> (CollectionV, Seq<char>) {
    if target.len() == 0 {
        let c1 = ensure_internal(c, ts, stamp).0;
        (c1, active_id(c1))
    } else {
        (c, target)
    }
}

/// `delete`: game `id` leaves; when it was active, the first remaining game
/// (or none) becomes active.
pub open spec fn delete_next(c: CollectionV, id: Seq<char>) -> CollectionV {
    let c1 = CollectionV { games: remove_key(c.games, id), ..c };
    if c.active == s(id) {
        CollectionV { active: if c1.games.len() > 0 { s(c1.games[0].0) } else { FieldV::Null }, ..c1 }
    } else {
        c1
    }
}

// ───────────────────────── actions: code ─────────────────────────

fn store_content_exec(c: &mut Collection, aid: Option<String>, content: String, ts: &str, stamp: &str)
    requires
        well_formed(old(c)@),
        !(old(c)@.kind is Other),
    ensures
        well_formed(final(c)@),
        final(c)@ == store_content(old(c)@, crate::args::opt_chars(aid), content@, ts@, stamp@),
{
    let existing = match &aid {
        Some(id) => match game_ref(c, id.as_str()) {
            Some(g) => Some(clone_game(g)),
            None => None,
        },
        None => None,
    };
    match (aid, existing) {
        (Some(id), Some(g)) => {
            let mut ng = g;
            ng.content = Field::Str(content);
            ng.updated = str_field(ts);
            ng.scope = str_field("internal");
            ng.scope_alt = str_field("internal");
            set_game(c, id, ng);
        },
        _ => {
            let g = new_game_exec("untitled", content.as_str(), Field::Absent, ts);
            set_game(c, string_of(stamp), g);
            c.active = str_field(stamp);
        },
    }
}

/// `set`: stores `content` in the active game (forking an external one, or
/// making a new game when there is none). Gives the content's byte length and
/// the active id.
pub fn canvas_set(c: &mut Collection, content: String, ts: &str, stamp: &str) -> (r: (usize, String))
    requires
        well_formed(old(c)@),
        old(c)@.games.len() < usize::MAX,
        !(old(c)@.kind is Other),
    ensures
        well_formed(final(c)@),
        final(c)@ == set_next(old(c)@, content@, ts@, stamp@),
        r.0 == utf8_len(content@) as usize,
        r.1@ == active_id(final(c)@),
{
    let len = byte_len(content.as_str());
    let aid = ensure_internal_active(c, ts, stamp);
    store_content_exec(c, aid, content, ts, stamp);
    (len, field_str_or(&c.active, ""))
}

/// `append`: adds `content` to the end of the active game's content. Gives
/// the byte length of the stored content.
pub fn canvas_append(c: &mut Collection, content: String, ts: &str, stamp: &str) -> (r: usize)
    requires
        well_formed(old(c)@),
        old(c)@.games.len() < usize::MAX,
        !(old(c)@.kind is Other),
    ensures
        well_formed(final(c)@),
        final(c)@ == append_next(old(c)@, content@, ts@, stamp@),
        ({
            let (c1, aid) = ensure_internal(old(c)@, ts@, stamp@);
            r == utf8_len(appended_text(c1, aid, content@)) as usize
        }),
{
    let aid = ensure_internal_active(c, ts, stamp);
    let combined = match &aid {
        Some(id) => match game_ref(c, id.as_str()) {
            Some(g) => match &g.content {
                Field::Str(e) => {
                    let mut t = e.clone();
                    append(&mut t, content.as_str());
                    t
                },
                _ => content,
            },
            None => content,
        },
        None => content,
    };
    let len = byte_len(combined.as_str());
    store_content_exec(c, aid, combined, ts, stamp);
    len
}

/// `get`: the active game's content, name and version ("" for what is
/// missing), and the active id.
pub fn canvas_get(c: &Collection) -> (r: (String, String, String, String))
    ensures
        r.0@ == active_content(c@),
        r.1@ == active_id(c@),
        r.2@ == name_of(game_at(c@, active_id(c@)), ""@),
        r.3@ == version_of(game_at(c@, active_id(c@))),
{
    proof {
        reveal_strlit("");
        assert(""@ =~= Seq::<char>::empty());
    }
    let aid = field_str_or(&c.active, "");
    match game_ref(c, aid.as_str()) {
        Some(g) => (field_str_or(&g.content, ""), aid, field_str_or(&g.name, ""), field_str_or(&g.version, "")),
        None => (String::new(), aid, String::new(), String::new()),
    }
}

/// `clear`: empties the active game's content. Tells whether a game was
/// cleared (then the canvas page file is removed).
pub fn canvas_clear(c: &mut Collection, ts: &str, stamp: &str) -> (r: bool)
    requires
        well_formed(old(c)@),
        old(c)@.games.len() < usize::MAX,
    ensures
        well_formed(final(c)@),
        (final(c)@, r) == clear_next(old(c)@, ts@, stamp@),
{
    let aid = ensure_internal_active(c, ts, stamp);
    match aid {
        Some(id) => {
            let existing = match game_ref(c, id.as_str()) {
                Some(g) => Some(clone_game(g)),
                None => None,
            };
            match existing {
                Some(g) => {
                    let mut ng = g;
                    ng.content = str_field("");
                    ng.updated = str_field(ts);
                    set_game(c, id, ng);
                    true
                },
                None => false,
            }
        },
        None => false,
    }
}

/// `new`: makes an empty game named `name` (version `version`) under id
/// `stamp` and activates it.
pub fn canvas_new(c: &mut Collection, name: &str, version: &str, ts: &str, stamp: &str)
    requires
        well_formed(old(c)@),
        !(old(c)@.kind is Other),
    ensures
        well_formed(final(c)@),
        final(c)@ == new_next(old(c)@, name@, version@, ts@, stamp@),
{
    let g = new_game_exec(name, "", str_field(version), ts);
    set_game(c, string_of(stamp), g);
    c.active = str_field(stamp);
}

/// `activate`: makes game `id` active; fails with "Game not found: <id>" when
/// there is no such game. Gives the game's name, version and content.
pub fn canvas_activate(c: &mut Collection, id: &str) -> (r: Result<(String, String, String), String>)
    requires
        well_formed(old(c)@),
    ensures
        well_formed(final(c)@),
        match game_at(old(c)@, id@) {
            None => final(c)@ == old(c)@ && (r matches Err(e) && e@ == "Game not found: "@ + id@),
            Some(g) => final(c)@ == (CollectionV { active: s(id@), ..old(c)@ }) && (r matches Ok(t)
                && t.0@ == str_or(g.name, ""@) && t.1@ == str_or(g.version, ""@) && t.2@ == str_or(
                g.content,
                ""@,
            )),
        },
{
    let info = match game_ref(c, id) {
        Some(g) => Some((field_str_or(&g.name, ""), field_str_or(&g.version, ""), field_str_or(&g.content, ""))),
        None => None,
    };
    match info {
        Some(t) => {
            c.active = str_field(id);
            Ok(t)
        },
        None => {
            let mut e = string_of("Game not found: ");
            append(&mut e, id);
            Err(e)
        },
    }
}

/// `fork`: forks an external active game. Gives whether a fork happened,
/// the id active before, the id active after ("" when none) and the active
/// game's name.
pub fn canvas_fork(c: &mut Collection, ts: &str, stamp: &str) -> (r: (bool, String, String, String))
    requires
        well_formed(old(c)@),
        old(c)@.games.len() < usize::MAX,
    ensures
        well_formed(final(c)@),
        ({
            let before = active_id(old(c)@);
            let (c1, aid) = ensure_internal(old(c)@, ts@, stamp@);
            let after = match aid { Some(a) => a, None => Seq::empty() };
            &&& final(c)@ == c1
            &&& r.1@ == before
            &&& r.2@ == after
            &&& r.0 == (before.len() > 0 && before != after)
            &&& r.3@ == (if after.len() == 0 { Seq::empty() } else { name_of(game_at(c1, after), "untitled"@) })
        }),
{
    proof {
        reveal_strlit("");
    }
    let before = field_str_or(&c.active, "");
    let after = match ensure_internal_active(c, ts, stamp) {
        Some(a) => a,
        None => String::new(),
    };
    let forked = !before.as_str().is_empty() && !str_eq(before.as_str(), after.as_str());
    let name = if after.as_str().is_empty() {
        String::new()
    } else {
        match game_ref(c, after.as_str()) {
            Some(g) => field_str_or(&g.name, "untitled"),
            None => string_of("untitled"),
        }
    };
    (forked, before, after, name)
}

/// `rename` and `save`: renames the target game (the given id, or the active
/// game after forking when none is given); fails with `missing` when there is
/// no such game. Gives the game's id.
pub fn canvas_rename(c: &mut Collection, name: &str, target: &str, missing: &str, ts: &str, stamp: &str) -> (r: Result<String, String>)
    requires
        well_formed(old(c)@),
        old(c)@.games.len() < usize::MAX,
    ensures
        well_formed(final(c)@),
        ({
            let (c1, id) = rename_base(old(c)@, target@, ts@, stamp@);
            if id.len() == 0 || game_at(c1, id) is None {
                final(c)@ == c1 && (r matches Err(e) && e@ == missing@)
            } else {
                final(c)@ == renamed(c1, id, name@, ts@) && (r matches Ok(x) && x@ == id)
            }
        }),
{
    proof {
        reveal_strlit("");
    }
    let id = if target.is_empty() {
        let _ = ensure_internal_active(c, ts, stamp);
        field_str_or(&c.active, "")
    } else {
        string_of(target)
    };
    if id.as_str().is_empty() {
        return Err(string_of(missing));
    }
    let existing = match game_ref(c, id.as_str()) {
        Some(g) => Some(clone_game(g)),
        None => None,
    };
    match existing {
        Some(g) => {
            let mut ng = g;
            ng.name = str_field(name);
            ng.updated = str_field(ts);
            proof {
                let c1 = c@;
                assert(c1.kind is Object) by {
                    lemma_index_of(c1.games, id@);
                }
            }
            set_game(c, id.clone(), ng);
            Ok(id)
        },
        None => Err(string_of(missing)),
    }
}

/// `delete`: removes game `id`; when it was active, the first remaining game
/// (or none) becomes active.
pub fn canvas_delete(c: &mut Collection, id: &str)
    requires
        well_formed(old(c)@),
    ensures
        well_formed(final(c)@),
        final(c)@ == delete_next(old(c)@, id@),
{
    proof {
        lemma_remove(c@.games, id@);
    }
    let was_active = match &c.active {
        Field::Str(a) => str_eq(a.as_str(), id),
        _ => false,
    };
    remove_entry(&mut c.games, id);
    if was_active {
        if c.games.len() > 0 {
            c.active = Field::Str(c.games[0].0.clone());
        } else {
            c.active = Field::Null;
        }
    }
}

/// The text the canvas page file mirrors when the collection is written.
pub fn mirrored(c: &Collection) -> (r: Option<String>)
    ensures
        crate::args::opt_chars(r) == mirrored_content(c@),
{
    match &c.active {
        Field::Str(id) => match game_ref(c, id.as_str()) {
            Some(g) => field_str(&g.content),
            None => None,
        },
        _ => None,
    }
}

} // verus!

verus! {

// ───────────────────────── listing ─────────────────────────

/// One line of the games listing.
pub struct GameSummary {
    pub id: String,
    pub name: String,
    pub version: String,
    pub owner: String,
    pub scope: String,
    pub game_id: String,
    pub checksum: String,
    /// The content's length in bytes (0 when it is not a string).
    pub length: usize,
    /// Whether this is the active game.
    pub active: bool,
    /// `created` and `updated` as stored (null when missing).
    pub created: Field,
    pub updated: Field,
}

/// The plain value of a `GameSummary`.
pub struct SummaryV {
    pub id: Seq<char>,
    pub name: Seq<char>,
    pub version: Seq<char>,
    pub owner: Seq<char>,
    pub scope: Seq<char>,
    pub game_id: Seq<char>,
    pub checksum: Seq<char>,
    pub length: usize,
    pub active: bool,
    pub created: FieldV,
    pub updated: FieldV,
}

impl View for GameSummary {
    type V = SummaryV;

    open spec fn view(&self) -> SummaryV {
        SummaryV {
            id: self.id@,
            name: self.name@,
            version: self.version@,
            owner: self.owner@,
            scope: self.scope@,
            game_id: self.game_id@,
            checksum: self.checksum@,
            length: self.length,
            active: self.active,
            created: self.created@,
            updated: self.updated@,
        }
    }
}

/// A member read from an object: a missing member reads as null.
pub open spec fn read_member(f: FieldV) -> FieldV {
    if f is Absent { FieldV::Null } else { f }
}

/// The listing line of member `id` when `aid` is the active id.
pub open spec fn summary_of(id: Seq<char>, e: EntryV, aid: Seq<char>) -> SummaryV {
    match e {
        EntryV::Game(g) => SummaryV {
            id,
            name: str_or(g.name, "untitled"@),
            version: str_or(g.version, ""@),
            owner: str_or(g.owner, "local"@),
            scope: scope_of(g),
            game_id: str_or(g.game_id, ""@),
            checksum: str_or(g.checksum, ""@),
            length: match g.content {
                FieldV::Str(t) => utf8_len(t) as usize,
                _ => 0,
            },
            active: id == aid,
            created: read_member(g.created),
            updated: read_member(g.updated),
        },
        EntryV::Value(_) => SummaryV {
            id,
            name: "untitled"@,
            version: ""@,
            owner: "local"@,
            scope: "internal"@,
            game_id: ""@,
            checksum: ""@,
            length: 0,
            active: id == aid,
            created: FieldV::Null,
            updated: FieldV::Null,
        },
    }
}

/// The key the listing is ordered by: `updated` when it is a string, else "".
pub open spec fn sort_key(x: SummaryV) -> Seq<char> {
    str_or(x.updated, ""@)
}

/// Where `x` goes in a listing ordered by decreasing key: before the first
/// line whose key is smaller.
pub open spec fn ins_pos(t: Seq<SummaryV>, x: SummaryV) -> int
    decreases t.len(),
{
    if t.len() == 0 {
        0
    } else if crate::keyorder::seq_less(sort_key(t[0]), sort_key(x)) {
        0
    } else {
        1 + ins_pos(t.drop_first(), x)
    }
}

/// The lines ordered by decreasing key; lines with equal keys keep their order.
pub open spec fn stable_desc(lines: Seq<SummaryV>) -> Seq<SummaryV>
    decreases lines.len(),
{
    if lines.len() == 0 {
        Seq::empty()
    } else {
        let t = stable_desc(lines.drop_last());
        t.insert(ins_pos(t, lines.last()), lines.last())
    }
}

/// The listing: one line per member of `games`, in key order, then ordered
/// by decreasing `updated`.
pub open spec fn listing(c: CollectionV) -> Seq<SummaryV> {
    stable_desc(c.games.map_values(|e: (Seq<char>, EntryV)| summary_of(e.0, e.1, active_id(c))))
}

fn read_member_exec(f: &Field) -> (r: Field)
    ensures
        r@ == read_member(f@),
{
    match f {
        Field::Absent => Field::Null,
        _ => clone_field(f),
    }
}

fn summary_exec(id: &String, e: &Entry, aid: &str) -> (r: GameSummary)
    ensures
        r@ == summary_of(id@, e@, aid@),
{
    let active = str_eq(id.as_str(), aid);
    match e {
        Entry::Game(g) => GameSummary {
            id: id.clone(),
            name: field_str_or(&g.name, "untitled"),
            version: field_str_or(&g.version, ""),
            owner: field_str_or(&g.owner, "local"),
            scope: match &g.scope {
                Field::Str(t) => t.clone(),
                _ => field_str_or(&g.scope_alt, "internal"),
            },
            game_id: field_str_or(&g.game_id, ""),
            checksum: field_str_or(&g.checksum, ""),
            length: match &g.content {
                Field::Str(t) => byte_len(t.as_str()),
                _ => 0,
            },
            active,
            created: read_member_exec(&g.created),
            updated: read_member_exec(&g.updated),
        },
        Entry::Value(_) => GameSummary {
            id: id.clone(),
            name: string_of("untitled"),
            version: string_of(""),
            owner: string_of("local"),
            scope: string_of("internal"),
            game_id: string_of(""),
            checksum: string_of(""),
            length: 0,
            active,
            created: Field::Null,
            updated: Field::Null,
        },
    }
}

fn sort_key_exec(x: &GameSummary) -> (r: String)
    ensures
        r@ == sort_key(x@),
{
    field_str_or(&x.updated, "")
}

/// `games`: the listing of all games, newest update first, and the active id.
pub fn canvas_games(c: &Collection) -> (r: (Vec<GameSummary>, String))
    ensures
        r.0@.map_values(|x: GameSummary| x@) == listing(c@),
        r.1@ == active_id(c@),
{
    proof {
        reveal_strlit("");
        assert(""@ =~= Seq::<char>::empty());
    }
    let aid = field_str_or(&c.active, "");
    let ghost lines = c@.games.map_values(|e: (Seq<char>, EntryV)| summary_of(e.0, e.1, active_id(c@)));
    let mut out: Vec<GameSummary> = Vec::new();
    let mut i: usize = 0;
    while i < c.games.len()
        invariant
            i <= c.games.len(),
            aid@ == active_id(c@),
            lines == c@.games.map_values(|e: (Seq<char>, EntryV)| summary_of(e.0, e.1, active_id(c@))),
            out@.map_values(|x: GameSummary| x@) == stable_desc(lines.take(i as int)),
        decreases c.games.len() - i,
    {
        let x = summary_exec(&c.games[i].0, &c.games[i].1, aid.as_str());
        assert(x@ == lines[i as int]);
        assert(lines.take(i + 1).drop_last() =~= lines.take(i as int));
        let ghost t = out@.map_values(|y: GameSummary| y@);
        let xk = sort_key_exec(&x);
        let mut p: usize = 0;
        assert(t.skip(0) =~= t);
        while p < out.len() && !crate::keyorder::key_less(sort_key_exec(&out[p]).as_str(), xk.as_str())
            invariant
                p <= out.len(),
                t == out@.map_values(|y: GameSummary| y@),
                xk@ == sort_key(x@),
                ins_pos(t, x@) == p + ins_pos(t.skip(p as int), x@),
            decreases out.len() - p,
        {
            assert(t.skip(p as int).drop_first() =~= t.skip(p + 1));
            assert(t.skip(p as int)[0] == t[p as int]);
            p += 1;
        }
        proof {
            if p < out.len() {
                assert(t.skip(p as int)[0] == t[p as int]);
            }
        }
        out.insert(p, x);
        assert(out@.map_values(|y: GameSummary| y@) =~= t.insert(p as int, lines[i as int]));
        i += 1;
    }
    assert(lines.take(c.games.len() as int) =~= lines);
    (out, aid)
}

/// A listing is ordered by decreasing `updated`, and has one line per game.
pub proof fn lemma_listing_ordered(lines: Seq<SummaryV>)
    ensures
        stable_desc(lines).len() == lines.len(),
        forall|i: int, j: int| 0 <= i < j < stable_desc(lines).len() ==> !crate::keyorder::seq_less(
            sort_key(#[trigger] stable_desc(lines)[i]),
            sort_key(#[trigger] stable_desc(lines)[j]),
        ),
    decreases lines.len(),
{
    if lines.len() > 0 {
        lemma_listing_ordered(lines.drop_last());
        let t = stable_desc(lines.drop_last());
        let x = lines.last();
        lemma_ins_pos(t, x);
        let p = ins_pos(t, x);
        let r = t.insert(p, x);
        assert forall|i: int, j: int| 0 <= i < j < r.len() implies !crate::keyorder::seq_less(
            sort_key(#[trigger] r[i]),
            sort_key(#[trigger] r[j]),
        ) by {
            if j < p {
                assert(r[i] == t[i] && r[j] == t[j]);
            } else if j == p {
                assert(r[i] == t[i]);
            } else if i < p {
                assert(r[i] == t[i] && r[j] == t[j - 1]);
                // t[i] >= x >= t[j-1]
                assert(!crate::keyorder::seq_less(sort_key(t[i]), sort_key(x)));
                assert(!crate::keyorder::seq_less(sort_key(x), sort_key(t[j - 1])));
                if crate::keyorder::seq_less(sort_key(t[i]), sort_key(t[j - 1])) {
                    crate::keyorder::lemma_less_total(sort_key(x), sort_key(t[j - 1]));
                    crate::keyorder::lemma_less_total(sort_key(t[i]), sort_key(x));
                    if sort_key(x) == sort_key(t[j - 1]) {
                    } else {
                        crate::keyorder::lemma_less_transitive(sort_key(t[i]), sort_key(t[j - 1]), sort_key(x));
                    }
                }
            } else if i == p {
                assert(r[j] == t[j - 1]);
            } else {
                assert(r[i] == t[i - 1] && r[j] == t[j - 1]);
            }
        }
    }
}

/// A listing holds every game's line, each as often as the collection has it:
/// ordering only moves lines.
pub proof fn lemma_listing_keeps_every_line(lines: Seq<SummaryV>)
    ensures
        stable_desc(lines).to_multiset() =~= lines.to_multiset(),
    decreases lines.len(),
{
    broadcast use vstd::multiset::group_multiset_axioms;
    if lines.len() == 0 {
        assert(stable_desc(lines) =~= lines);
    } else {
        let rest = lines.drop_last();
        let x = lines.last();
        lemma_listing_keeps_every_line(rest);
        let t = stable_desc(rest);
        lemma_listing_ordered(rest);
        lemma_ins_pos(t, x);
        let p = ins_pos(t, x);
        let r = t.insert(p, x);
        assert(r.remove(p) =~= t);
        assert(r[p] == x);
        r.to_multiset_ensures();
        rest.to_multiset_ensures();
        assert(lines =~= rest.push(x));
        assert(r.to_multiset().count(x) > 0) by {
            assert(r.contains(x));
        }
        assert(r.to_multiset() =~= t.to_multiset().insert(x));
    }
}

proof fn lemma_ins_pos(t: Seq<SummaryV>, x: SummaryV)
    requires
        forall|i: int, j: int| 0 <= i < j < t.len() ==> !crate::keyorder::seq_less(
            sort_key(#[trigger] t[i]),
            sort_key(#[trigger] t[j]),
        ),
    ensures
        0 <= ins_pos(t, x) <= t.len(),
        forall|i: int| 0 <= i < ins_pos(t, x) ==> !crate::keyorder::seq_less(sort_key(#[trigger] t[i]), sort_key(x)),
        forall|i: int| ins_pos(t, x) <= i < t.len() ==> !crate::keyorder::seq_less(sort_key(x), sort_key(#[trigger] t[i])),
    decreases t.len(),
{
    if t.len() > 0 {
        let u = t.drop_first();
        assert forall|i: int, j: int| 0 <= i < j < u.len() implies !crate::keyorder::seq_less(
            sort_key(#[trigger] u[i]),
            sort_key(#[trigger] u[j]),
        ) by {
            assert(u[i] == t[i + 1] && u[j] == t[j + 1]);
        }
        lemma_ins_pos(u, x);
        if crate::keyorder::seq_less(sort_key(t[0]), sort_key(x)) {
            assert forall|i: int| 0 <= i < t.len() implies !crate::keyorder::seq_less(sort_key(x), sort_key(#[trigger] t[i])) by {
                crate::keyorder::lemma_less_asymmetric(sort_key(t[0]), sort_key(x));
                if i > 0 && crate::keyorder::seq_less(sort_key(x), sort_key(t[i])) {
                    crate::keyorder::lemma_less_transitive(sort_key(t[0]), sort_key(x), sort_key(t[i]));
                    assert(!crate::keyorder::seq_less(sort_key(t[0]), sort_key(t[i])));
                }
            }
        } else {
            assert forall|i: int| 0 <= i < ins_pos(t, x) implies !crate::keyorder::seq_less(sort_key(#[trigger] t[i]), sort_key(x)) by {
                if i > 0 {
                    assert(t[i] == u[i - 1]);
                }
            }
            assert forall|i: int| ins_pos(t, x) <= i < t.len() implies !crate::keyorder::seq_less(sort_key(x), sort_key(#[trigger] t[i])) by {
                assert(t[i] == u[i - 1]);
            }
        }
    }
}

} // verus!

verus! {

// ───────────────────────── requests and dispatch ─────────────────────────

/// What a canvas call asks for.
pub enum CanvasRequest {
    SetContent { content: String },
    Append { content: String },
    Get,
    Clear,
    New { name: String, version: String },
    Games,
    Activate { id: String },
    Fork,
    Rename { name: String, target: String },
    Delete { id: String },
    Path,
    Save { name: String },
}

/// The error for an unknown action.
pub open spec fn unknown_canvas_action(action: Seq<char>) -> Seq<char> {
    "Unknown action: "@ + action + ". Use: set, append, get, clear, new, games, activate, fork, rename, delete"@
}

/// What a canvas call `[action, ...]` asks for.
pub open spec fn canvas_request_ok(args: Seq<crate::args::Arg>, r: Result<CanvasRequest, String>) -> bool {
    let action = crate::args::arg_str_or(args, 0, "get"@);
    let a1 = crate::args::arg_str_or(args, 1, ""@);
    if action == "set"@ {
        r matches Ok(CanvasRequest::SetContent { content }) && content@ == a1
    } else if action == "append"@ {
        r matches Ok(CanvasRequest::Append { content }) && content@ == a1
    } else if action == "get"@ {
        r matches Ok(CanvasRequest::Get)
    } else if action == "clear"@ {
        r matches Ok(CanvasRequest::Clear)
    } else if action == "new"@ {
        r matches Ok(CanvasRequest::New { name, version }) && name@ == crate::args::arg_str_or(args, 1, "untitled"@)
            && version@ == crate::args::arg_str_or(args, 2, ""@)
    } else if action == "games"@ || action == "projects"@ {
        r matches Ok(CanvasRequest::Games)
    } else if action == "activate"@ || action == "load"@ {
        if a1.len() == 0 {
            r matches Err(e) && e@ == "Game ID required"@
        } else {
            r matches Ok(CanvasRequest::Activate { id }) && id@ == a1
        }
    } else if action == "fork"@ {
        r matches Ok(CanvasRequest::Fork)
    } else if action == "rename"@ {
        if a1.len() == 0 {
            r matches Err(e) && e@ == "Name required"@
        } else {
            r matches Ok(CanvasRequest::Rename { name, target }) && name@ == a1 && target@
                == crate::args::arg_str_or(args, 2, ""@)
        }
    } else if action == "delete"@ || action == "delete_project"@ {
        if a1.len() == 0 {
            r matches Err(e) && e@ == "Game ID required"@
        } else {
            r matches Ok(CanvasRequest::Delete { id }) && id@ == a1
        }
    } else if action == "path"@ {
        r matches Ok(CanvasRequest::Path)
    } else if action == "save"@ {
        if a1.len() == 0 {
            r matches Err(e) && e@ == "Name required"@
        } else {
            r matches Ok(CanvasRequest::Save { name }) && name@ == a1
        }
    } else {
        r matches Err(e) && e@ == unknown_canvas_action(action)
    }
}

/// Reads `[action, ...]` of a canvas call. The action defaults to "get";
/// "load", "projects" and "delete_project" are the older names of
/// "activate", "games" and "delete".
pub fn parse_canvas_request(args: &Vec<crate::args::Arg>) -> (r: Result<CanvasRequest, String>)
    ensures
        canvas_request_ok(args@, r),
{
    let action = crate::args::get_str_or(args, 0, "get");
    let a = action.as_str();
    let a1 = crate::args::get_str_or(args, 1, "");
    if str_eq(a, "set") {
        Ok(CanvasRequest::SetContent { content: a1 })
    } else if str_eq(a, "append") {
        Ok(CanvasRequest::Append { content: a1 })
    } else if str_eq(a, "get") {
        Ok(CanvasRequest::Get)
    } else if str_eq(a, "clear") {
        Ok(CanvasRequest::Clear)
    } else if str_eq(a, "new") {
        Ok(CanvasRequest::New {
            name: crate::args::get_str_or(args, 1, "untitled"),
            version: crate::args::get_str_or(args, 2, ""),
        })
    } else if str_eq(a, "games") || str_eq(a, "projects") {
        Ok(CanvasRequest::Games)
    } else if str_eq(a, "activate") || str_eq(a, "load") {
        if a1.as_str().is_empty() {
            Err(string_of("Game ID required"))
        } else {
            Ok(CanvasRequest::Activate { id: a1 })
        }
    } else if str_eq(a, "fork") {
        Ok(CanvasRequest::Fork)
    } else if str_eq(a, "rename") {
        if a1.as_str().is_empty() {
            Err(string_of("Name required"))
        } else {
            Ok(CanvasRequest::Rename { name: a1, target: crate::args::get_str_or(args, 2, "") })
        }
    } else if str_eq(a, "delete") || str_eq(a, "delete_project") {
        if a1.as_str().is_empty() {
            Err(string_of("Game ID required"))
        } else {
            Ok(CanvasRequest::Delete { id: a1 })
        }
    } else if str_eq(a, "path") {
        Ok(CanvasRequest::Path)
    } else if str_eq(a, "save") {
        if a1.as_str().is_empty() {
            Err(string_of("Name required"))
        } else {
            Ok(CanvasRequest::Save { name: a1 })
        }
    } else {
        let mut e = string_of("Unknown action: ");
        append(&mut e, a);
        append(&mut e, ". Use: set, append, get, clear, new, games, activate, fork, rename, delete");
        Err(e)
    }
}

/// What a canvas call answers.
pub enum CanvasReply {
    SetContent { length: usize, game_id: String },
    Append { length: usize },
    Get { content: String, length: usize, game_id: String, name: String, version: String },
    Clear,
    New { game_id: String, name: String },
    Games { games: Vec<GameSummary>, active: String },
    Activate { game_id: String, name: String, version: String, content: String, length: usize },
    Fork { forked: bool, from: String, game_id: String, name: String },
    Rename { game_id: String, name: String },
    Save { game_id: String, name: String },
    Delete { deleted: String },
    Path,
    Error(String),
}

/// The answer, whether the collection is written back, and whether the
/// canvas page file is removed.
pub struct CanvasOutcome {
    pub reply: CanvasReply,
    pub write: bool,
    pub drop_page: bool,
}

/// The request changes a game's content or makes a game.
pub open spec fn makes_or_fills(req: CanvasRequest) -> bool {
    req is SetContent || req is Append || req is New
}

/// Carries out a canvas request on the collection. `ts` is the current time
/// as text, `stamp` the id a new game takes (a short id made by
/// `clock::format_short_id`; a fork takes `<stamp>f`, or the first free
/// `<stamp>f<n>`).
pub fn canvas_apply(c: &mut Collection, req: CanvasRequest, ts: &str, stamp: &str) -> (r: CanvasOutcome)
    requires
        well_formed(old(c)@),
        old(c)@.games.len() < usize::MAX,
        makes_or_fills(req) ==> !(old(c)@.kind is Other),
    ensures
        well_formed(final(c)@),
        match req {
            CanvasRequest::SetContent { content } => final(c)@ == set_next(old(c)@, content@, ts@, stamp@) && r.write
                && (r.reply matches CanvasReply::SetContent { length, game_id } && length == utf8_len(content@) as usize
                && game_id@ == active_id(final(c)@)),
            CanvasRequest::Append { content } => final(c)@ == append_next(old(c)@, content@, ts@, stamp@)
                && r.write && (r.reply matches CanvasReply::Append { length } && {
                let (c1, aid) = ensure_internal(old(c)@, ts@, stamp@);
                length == utf8_len(appended_text(c1, aid, content@)) as usize
            }),
            CanvasRequest::Get => final(c)@ == old(c)@ && !r.write && (r.reply matches CanvasReply::Get {
                content,
                length,
                game_id,
                name,
                version,
            } && content@ == active_content(old(c)@) && length == utf8_len(content@) as usize && game_id@
                == active_id(old(c)@) && name@ == name_of(game_at(old(c)@, active_id(old(c)@)), ""@)
                && version@ == version_of(game_at(old(c)@, active_id(old(c)@)))),
            CanvasRequest::Clear => (final(c)@, r.drop_page) == clear_next(old(c)@, ts@, stamp@) && r.write
                && r.reply is Clear,
            CanvasRequest::New { name, version } => final(c)@ == new_next(old(c)@, name@, version@, ts@, stamp@)
                && r.write && (r.reply matches CanvasReply::New { game_id, name: n } && game_id@ == stamp@
                && n@ == name@),
            CanvasRequest::Games => final(c)@ == old(c)@ && !r.write && (r.reply matches CanvasReply::Games {
                games,
                active,
            } && games@.map_values(|x: GameSummary| x@) == listing(old(c)@) && active@ == active_id(old(c)@)),
            CanvasRequest::Activate { id } => match game_at(old(c)@, id@) {
                None => final(c)@ == old(c)@ && !r.write && (r.reply matches CanvasReply::Error(e) && e@
                    == "Game not found: "@ + id@),
                Some(g) => final(c)@ == (CollectionV { active: s(id@), ..old(c)@ }) && r.write && (r.reply matches CanvasReply::Activate {
                    game_id,
                    name,
                    version,
                    content,
                    length,
                } && game_id@ == id@ && name@ == str_or(g.name, ""@) && version@ == str_or(g.version, ""@)
                    && content@ == str_or(g.content, ""@) && length == utf8_len(content@) as usize),
            },
            CanvasRequest::Fork => ({
                let (c1, aid) = ensure_internal(old(c)@, ts@, stamp@);
                let before = active_id(old(c)@);
                let after = match aid { Some(a) => a, None => Seq::empty() };
                &&& final(c)@ == c1
                &&& r.write == (after.len() > 0)
                &&& r.reply matches CanvasReply::Fork { forked, from, game_id, name }
                &&& forked == (before.len() > 0 && before != after)
                &&& from@ == before
                &&& game_id@ == after
                &&& name@ == (if after.len() == 0 { Seq::empty() } else { name_of(game_at(c1, after), "untitled"@) })
            }),
            CanvasRequest::Rename { name, target } => ({
                let (c1, id) = rename_base(old(c)@, target@, ts@, stamp@);
                if id.len() == 0 || game_at(c1, id) is None {
                    !r.write && (r.reply matches CanvasReply::Error(e) && e@ == "No active game to rename"@)
                } else {
                    final(c)@ == renamed(c1, id, name@, ts@) && r.write && (r.reply matches CanvasReply::Rename {
                        game_id,
                        name: n,
                    } && game_id@ == id && n@ == name@)
                }
            }),
            CanvasRequest::Save { name } => ({
                let (c1, id) = rename_base(old(c)@, ""@, ts@, stamp@);
                if id.len() == 0 || game_at(c1, id) is None {
                    !r.write && (r.reply matches CanvasReply::Error(e) && e@ == "No active game"@)
                } else {
                    final(c)@ == renamed(c1, id, name@, ts@) && r.write && (r.reply matches CanvasReply::Save {
                        game_id,
                        name: n,
                    } && game_id@ == id && n@ == name@)
                }
            }),
            CanvasRequest::Delete { id } => final(c)@ == delete_next(old(c)@, id@) && r.write && (r.reply matches CanvasReply::Delete {
                deleted,
            } && deleted@ == id@),
            CanvasRequest::Path => final(c)@ == old(c)@ && !r.write && r.reply is Path,
        },
        !(req is Clear) ==> !r.drop_page,
{
    match req {
        CanvasRequest::SetContent { content } => {
            let (length, game_id) = canvas_set(c, content, ts, stamp);
            CanvasOutcome { reply: CanvasReply::SetContent { length, game_id }, write: true, drop_page: false }
        },
        CanvasRequest::Append { content } => {
            let length = canvas_append(c, content, ts, stamp);
            CanvasOutcome { reply: CanvasReply::Append { length }, write: true, drop_page: false }
        },
        CanvasRequest::Get => {
            let (content, game_id, name, version) = canvas_get(c);
            let length = byte_len(content.as_str());
            CanvasOutcome { reply: CanvasReply::Get { content, length, game_id, name, version }, write: false, drop_page: false }
        },
        CanvasRequest::Clear => {
            let dropped = canvas_clear(c, ts, stamp);
            CanvasOutcome { reply: CanvasReply::Clear, write: true, drop_page: dropped }
        },
        CanvasRequest::New { name, version } => {
            canvas_new(c, name.as_str(), version.as_str(), ts, stamp);
            CanvasOutcome { reply: CanvasReply::New { game_id: string_of(stamp), name }, write: true, drop_page: false }
        },
        CanvasRequest::Games => {
            let (games, active) = canvas_games(c);
            CanvasOutcome { reply: CanvasReply::Games { games, active }, write: false, drop_page: false }
        },
        CanvasRequest::Activate { id } => {
            match canvas_activate(c, id.as_str()) {
                Ok((name, version, content)) => {
                    let length = byte_len(content.as_str());
                    CanvasOutcome {
                        reply: CanvasReply::Activate { game_id: id, name, version, content, length },
                        write: true,
                        drop_page: false,
                    }
                },
                Err(e) => CanvasOutcome { reply: CanvasReply::Error(e), write: false, drop_page: false },
            }
        },
        CanvasRequest::Fork => {
            let (forked, from, game_id, name) = canvas_fork(c, ts, stamp);
            let write = !game_id.as_str().is_empty();
            CanvasOutcome { reply: CanvasReply::Fork { forked, from, game_id, name }, write, drop_page: false }
        },
        CanvasRequest::Rename { name, target } => {
            match canvas_rename(c, name.as_str(), target.as_str(), "No active game to rename", ts, stamp) {
                Ok(game_id) => CanvasOutcome { reply: CanvasReply::Rename { game_id, name }, write: true, drop_page: false },
                Err(e) => CanvasOutcome { reply: CanvasReply::Error(e), write: false, drop_page: false },
            }
        },
        CanvasRequest::Save { name } => {
            match canvas_rename(c, name.as_str(), "", "No active game", ts, stamp) {
                Ok(game_id) => CanvasOutcome { reply: CanvasReply::Save { game_id, name }, write: true, drop_page: false },
                Err(e) => CanvasOutcome { reply: CanvasReply::Error(e), write: false, drop_page: false },
            }
        },
        CanvasRequest::Delete { id } => {
            canvas_delete(c, id.as_str());
            CanvasOutcome { reply: CanvasReply::Delete { deleted: id }, write: true, drop_page: false }
        },
        CanvasRequest::Path => CanvasOutcome { reply: CanvasReply::Path, write: false, drop_page: false },
    }
}

} // verus!

verus! {

// ───────────────────────── laws ─────────────────────────

proof fn lemma_with_game(c: CollectionV, id: Seq<char>, g: GameV)
    requires
        well_formed(c),
    ensures
        well_formed(with_game(c, id, g)),
        game_at(with_game(c, id, g), id) == Some(g),
        forall|k: Seq<char>| k != id ==> #[trigger] game_at(with_game(c, id, g), k) == game_at(c, k),
{
    lemma_put(c.games, id, EntryV::Game(g));
    assert forall|k: Seq<char>| k != id implies #[trigger] game_at(with_game(c, id, g), k) == game_at(c, k) by {
        assert(lookup(put(c.games, id, EntryV::Game(g)), k) == lookup(c.games, k));
    }
}

/// Forking keeps the collection well formed, leaves `active` naming the game
/// it reports, keeps what `get` reads, and leaves no external active game.
pub proof fn lemma_ensure_internal(c: CollectionV, ts: Seq<char>, stamp: Seq<char>)
    requires
        well_formed(c),
    ensures
        well_formed(ensure_internal(c, ts, stamp).0),
        ensure_internal(c, ts, stamp).1 matches Some(a) ==> ensure_internal(c, ts, stamp).0.active == s(a),
        ensure_internal(c, ts, stamp).1 is Some ==> active_content(ensure_internal(c, ts, stamp).0) == active_content(c),
        ensure_internal(c, ts, stamp).1 is None ==> ensure_internal(c, ts, stamp).0 == c && !(c.active is Str),
        !(c.kind is Other) ==> !(ensure_internal(c, ts, stamp).0.kind is Other),
        ensure_internal(c, ts, stamp).1 matches Some(a) ==> (game_at(ensure_internal(c, ts, stamp).0, a) matches Some(g)
            ==> scope_of(g) != "external"@),
{
    reveal_strlit("internal");
    reveal_strlit("external");
    match c.active {
        FieldV::Str(aid) => match game_at(c, aid) {
            Some(g) => {
                if scope_of(g) == "external"@ {
                    lemma_with_game(c, fork_id(c, stamp), forked_game(g, aid, ts));
                    assert("internal"@ != "external"@) by {
                        assert("internal"@[0] != "external"@[0]);
                    }
                }
            },
            None => {},
        },
        _ => {},
    }
}

/// Read after write: after `set`, `get` gives the content just set.
pub proof fn lemma_set_then_get(c: CollectionV, content: Seq<char>, ts: Seq<char>, stamp: Seq<char>)
    requires
        well_formed(c),
        !(c.kind is Other),
    ensures
        active_content(set_next(c, content, ts, stamp)) == content,
        well_formed(set_next(c, content, ts, stamp)),
{
    lemma_ensure_internal(c, ts, stamp);
    let (c1, aid) = ensure_internal(c, ts, stamp);
    match aid {
        Some(id) => match game_at(c1, id) {
            Some(g) => {
                let g2 = GameV { content: s(content), updated: s(ts), scope: s("internal"@), scope_alt: s("internal"@), ..g };
                lemma_with_game(c1, id, g2);
            },
            None => {
                lemma_with_game(c1, stamp, new_game("untitled"@, content, FieldV::Absent, ts));
            },
        },
        None => {
            lemma_with_game(c1, stamp, new_game("untitled"@, content, FieldV::Absent, ts));
        },
    }
}

/// After `append`, `get` gives what it gave before followed by the appended
/// text (unless `active` is not a string and the game under the empty id has
/// content: then the text goes to a new game).
pub proof fn lemma_append_then_get(c: CollectionV, content: Seq<char>, ts: Seq<char>, stamp: Seq<char>)
    requires
        well_formed(c),
        !(c.kind is Other),
        c.active is Str || active_content(c).len() == 0,
    ensures
        active_content(append_next(c, content, ts, stamp)) == active_content(c) + content,
{
    lemma_ensure_internal(c, ts, stamp);
    let (c1, aid) = ensure_internal(c, ts, stamp);
    let text = appended_text(c1, aid, content);
    match aid {
        Some(id) => match game_at(c1, id) {
            Some(g) => {
                let g2 = GameV { content: s(text), updated: s(ts), scope: s("internal"@), scope_alt: s("internal"@), ..g };
                lemma_with_game(c1, id, g2);
                if !(g.content is Str) {
                    assert(active_content(c) =~= Seq::<char>::empty());
                    assert(text =~= active_content(c) + content);
                }
            },
            None => {
                lemma_with_game(c1, stamp, new_game("untitled"@, text, FieldV::Absent, ts));
                assert(text =~= active_content(c) + content);
            },
        },
        None => {
            lemma_with_game(c1, stamp, new_game("untitled"@, text, FieldV::Absent, ts));
            assert(text =~= active_content(c) + content);
        },
    }
}

/// After `clear`, `get` gives the empty string (unless `active` is not a
/// string and the game under the empty id has content, which `clear` leaves).
pub proof fn lemma_clear_then_get(c: CollectionV, ts: Seq<char>, stamp: Seq<char>)
    requires
        well_formed(c),
        c.active is Str || active_content(c).len() == 0,
    ensures
        active_content(clear_next(c, ts, stamp).0).len() == 0,
{
    lemma_ensure_internal(c, ts, stamp);
    let (c1, aid) = ensure_internal(c, ts, stamp);
    reveal_strlit("");
    match aid {
        Some(id) => match game_at(c1, id) {
            Some(g) => {
                lemma_with_game(c1, id, GameV { content: s(""@), updated: s(ts), ..g });
            },
            None => {},
        },
        None => {},
    }
}

/// After `new`, the new game is active, named as asked, and empty.
pub proof fn lemma_new_then_get(c: CollectionV, name: Seq<char>, version: Seq<char>, ts: Seq<char>, stamp: Seq<char>)
    requires
        well_formed(c),
    ensures
        active_id(new_next(c, name, version, ts, stamp)) == stamp,
        active_content(new_next(c, name, version, ts, stamp)).len() == 0,
        name_of(game_at(new_next(c, name, version, ts, stamp), stamp), ""@) == name,
{
    reveal_strlit("");
    lemma_with_game(c, stamp, new_game(name, ""@, s(version), ts));
}

/// After `activate`, `get` reads the activated game.
pub proof fn lemma_activate_then_get(c: CollectionV, id: Seq<char>)
    requires
        game_at(c, id) is Some,
    ensures
        active_content(CollectionV { active: s(id), ..c }) == content_of(game_at(c, id)),
{
}

/// `delete` removes the game, keeps every other game, and moves `active` to
/// the first remaining game (or null) when the deleted game was active.
pub proof fn lemma_delete(c: CollectionV, id: Seq<char>)
    requires
        well_formed(c),
    ensures
        well_formed(delete_next(c, id)),
        game_at(delete_next(c, id), id) is None,
        forall|k: Seq<char>| k != id ==> #[trigger] game_at(delete_next(c, id), k) == game_at(c, k),
        c.active != s(id) ==> delete_next(c, id).active == c.active,
        c.active == s(id) ==> delete_next(c, id).active != s(id),
{
    lemma_remove(c.games, id);
    let r = remove_key(c.games, id);
    assert forall|k: Seq<char>| k != id implies #[trigger] game_at(delete_next(c, id), k) == game_at(c, k) by {
        assert(lookup(r, k) == lookup(c.games, k));
    }
    if c.active == s(id) && r.len() > 0 {
        lemma_index_of(r, id);
        assert(r[0].0 != id);
    }
}

proof fn lemma_search_free(c: CollectionV, stamp: Seq<char>, n: nat)
    requires
        well_formed(c),
        n >= 1,
        forall|m: nat| 1 <= m < n ==> #[trigger] game_at(c, fork_candidate(stamp, m)) is Some,
        used_keys(c, stamp, n).len() == n - 1,
    ensures
        exists|k: nat| first_free(c, stamp, k),
    decreases c.games.len() + 1 - n,
{
    lemma_used_keys_bounded(c, stamp, n);
    if game_at(c, fork_candidate(stamp, n)) is None {
        assert(first_free(c, stamp, n));
    } else {
        lemma_used_keys_grow(c, stamp, n);
        lemma_used_keys_bounded(c, stamp, n + 1);
        assert forall|m: nat| 1 <= m < n + 1 implies #[trigger] game_at(c, fork_candidate(stamp, m)) is Some by {
            if m < n {
                assert(game_at(c, fork_candidate(stamp, m)) is Some);
            }
        }
        lemma_search_free(c, stamp, n + 1);
    }
}

/// The id a fork takes holds no game yet.
pub proof fn lemma_fork_id_is_free(c: CollectionV, stamp: Seq<char>)
    requires
        well_formed(c),
    ensures
        game_at(c, fork_id(c, stamp)) is None,
{
    assert(used_keys(c, stamp, 1) =~= Set::empty());
    lemma_search_free(c, stamp, 1);
    let k = choose|k: nat| first_free(c, stamp, k);
    assert(first_free(c, stamp, k));
}

/// Every edit of an external active game goes to a fork: `set`, `append`,
/// `clear`, and `rename`/`save` without an id first copy the game to a free
/// id, marked internal and forked from it, make the copy active and edit the
/// copy; the external game stays as it was. `fork` makes the same copy, and
/// since the active id changes from `x` to the copy's id, `canvas_apply`
/// reports it as forked from `x`.
pub proof fn lemma_edits_fork_external_game(
    c: CollectionV,
    x: Seq<char>,
    g: GameV,
    ts: Seq<char>,
    stamp: Seq<char>,
    content: Seq<char>,
    name: Seq<char>,
)
    requires
        well_formed(c),
        c.active == s(x),
        game_at(c, x) == Some(g),
        scope_of(g) == "external"@,
    ensures
        ({
            let y = fork_id(c, stamp);
            let f = forked_game(g, x, ts);
            let c1 = CollectionV { active: s(y), ..with_game(c, y, f) };
            &&& game_at(c, y) is None
            &&& y != x
            &&& f.forked_from == s(x) && f.scope == s("internal"@) && f.scope_alt == s("internal"@)
            &&& ensure_internal(c, ts, stamp) == (c1, Some(y))
            &&& active_id(c) == x
            &&& active_id(c1) == y
            &&& game_at(set_next(c, content, ts, stamp), x) == Some(g)
            &&& active_id(set_next(c, content, ts, stamp)) == y
            &&& game_at(set_next(c, content, ts, stamp), y) == Some(
                GameV { content: s(content), updated: s(ts), scope: s("internal"@), scope_alt: s("internal"@), ..f },
            )
            &&& game_at(append_next(c, content, ts, stamp), x) == Some(g)
            &&& active_id(append_next(c, content, ts, stamp)) == y
            &&& game_at(append_next(c, content, ts, stamp), y) == Some(
                GameV {
                    content: s(match g.content { FieldV::Str(e) => e + content, _ => content }),
                    updated: s(ts),
                    scope: s("internal"@),
                    scope_alt: s("internal"@),
                    ..f
                },
            )
            &&& game_at(clear_next(c, ts, stamp).0, x) == Some(g)
            &&& active_id(clear_next(c, ts, stamp).0) == y
            &&& game_at(clear_next(c, ts, stamp).0, y) == Some(GameV { content: s(""@), updated: s(ts), ..f })
            &&& rename_base(c, ""@, ts, stamp) == (c1, y)
            &&& game_at(renamed(c1, y, name, ts), x) == Some(g)
            &&& game_at(renamed(c1, y, name, ts), y) == Some(GameV { name: s(name), updated: s(ts), ..f })
        }),
{
    reveal_strlit("");
    let y = fork_id(c, stamp);
    let f = forked_game(g, x, ts);
    lemma_fork_id_is_free(c, stamp);
    lemma_with_game(c, y, f);
    let c1 = CollectionV { active: s(y), ..with_game(c, y, f) };
    assert(y != x);
    assert(game_at(with_game(c, y, f), x) == game_at(c, x));
    assert(ensure_internal(c, ts, stamp) == (c1, Some(y)));
    assert(game_at(c1, y) == Some(f));
    assert(game_at(c1, x) == Some(g));
    let gs = GameV { content: s(content), updated: s(ts), scope: s("internal"@), scope_alt: s("internal"@), ..f };
    lemma_with_game(c1, y, gs);
    let ga = GameV {
        content: s(match g.content { FieldV::Str(e) => e + content, _ => content }),
        updated: s(ts),
        scope: s("internal"@),
        scope_alt: s("internal"@),
        ..f
    };
    assert(appended_text(c1, Some(y), content) == (match g.content { FieldV::Str(e) => e + content, _ => content }));
    lemma_with_game(c1, y, ga);
    lemma_with_game(c1, y, GameV { content: s(""@), updated: s(ts), ..f });
    lemma_with_game(c1, y, GameV { name: s(name), updated: s(ts), ..f });
    assert(active_id(c1) == y);
}

/// The older action names do what the current ones do: `load` is
/// `activate`, `projects` is `games`, `delete_project` is `delete`, with the
/// same further arguments (a missing id reads as "").
pub proof fn lemma_action_aliases(
    a: Seq<crate::args::Arg>,
    b: Seq<crate::args::Arg>,
    r: Result<CanvasRequest, String>,
)
    requires
        a.len() == b.len(),
        a.len() >= 1,
        forall|i: int| 1 <= i < a.len() ==> a[i] == b[i],
        (crate::args::arg_str(a, 0) == Some("load"@) && crate::args::arg_str(b, 0) == Some("activate"@))
            || (crate::args::arg_str(a, 0) == Some("projects"@) && crate::args::arg_str(b, 0) == Some(
            "games"@,
        )) || (crate::args::arg_str(a, 0) == Some("delete_project"@) && crate::args::arg_str(b, 0)
            == Some("delete"@)),
    ensures
        canvas_request_ok(a, r) == canvas_request_ok(b, r),
{
    reveal_strlit("load");
    reveal_strlit("activate");
    reveal_strlit("projects");
    reveal_strlit("games");
    reveal_strlit("delete_project");
    reveal_strlit("delete");
    reveal_strlit("set");
    reveal_strlit("append");
    reveal_strlit("get");
    reveal_strlit("clear");
    reveal_strlit("new");
    reveal_strlit("fork");
    reveal_strlit("rename");
    reveal_strlit("path");
    reveal_strlit("save");
    assert("activate"@[0] != "projects"@[0]);
    assert("games"@[0] != "clear"@[0]);
    assert("delete"@[0] != "append"@[0]);
    assert("delete"@[0] != "rename"@[0]);
    assert(crate::args::arg_str_or(a, 1, ""@) == crate::args::arg_str_or(b, 1, ""@));
    let aa = crate::args::arg_str_or(a, 0, "get"@);
    let ab = crate::args::arg_str_or(b, 0, "get"@);
    let a1 = crate::args::arg_str_or(a, 1, ""@);
    let names = seq!["set"@, "append"@, "get"@, "clear"@, "new"@, "games"@, "projects"@, "activate"@, "load"@, "fork"@,
        "rename"@, "delete"@, "delete_project"@, "path"@, "save"@];
    assert forall|i: int, j: int| 0 <= i < j < names.len() implies names[i] != names[j] by {
        if names[i].len() == names[j].len() {
            assert(names[i][0] != names[j][0] || names[i][1] != names[j][1]);
        }
    }
    if aa == "load"@ {
        assert(ab == "activate"@);
        assert(canvas_request_ok(b, r) == (if a1.len() == 0 { r matches Err(e) && e@ == "Game ID required"@ } else {
            r matches Ok(CanvasRequest::Activate { id }) && id@ == a1 }));
        assert(canvas_request_ok(a, r) == (if a1.len() == 0 { r matches Err(e) && e@ == "Game ID required"@ } else {
            r matches Ok(CanvasRequest::Activate { id }) && id@ == a1 }));
    } else if aa == "projects"@ {
        assert(ab == "games"@);
        assert(canvas_request_ok(b, r) == (r matches Ok(CanvasRequest::Games)));
        assert(canvas_request_ok(a, r) == (r matches Ok(CanvasRequest::Games)));
    } else {
        assert(aa == "delete_project"@ && ab == "delete"@);
        assert(canvas_request_ok(b, r) == (if a1.len() == 0 { r matches Err(e) && e@ == "Game ID required"@ } else {
            r matches Ok(CanvasRequest::Delete { id }) && id@ == a1 }));
        assert(canvas_request_ok(a, r) == (if a1.len() == 0 { r matches Err(e) && e@ == "Game ID required"@ } else {
            r matches Ok(CanvasRequest::Delete { id }) && id@ == a1 }));
    }
}

/// When the active game is deleted and games remain, the game that becomes
/// active is the remaining one whose key comes first: it is present, it is
/// not the deleted game, and every other remaining key comes after it. When
/// none remain, `active` becomes null.
pub proof fn lemma_delete_activates_first_key(c: CollectionV, id: Seq<char>)
    requires
        well_formed(c),
        c.active == s(id),
    ensures
        ({
            let n = delete_next(c, id);
            &&& n.games.len() == 0 ==> n.active == FieldV::Null
            &&& n.games.len() > 0 ==> (n.active matches FieldV::Str(a) && {
                &&& lookup(n.games, a) is Some
                &&& lookup(c.games, a) is Some
                &&& a != id
                &&& forall|k: Seq<char>| #[trigger] lookup(n.games, k) is Some && k != a ==> crate::keyorder::seq_less(a, k)
            })
        }),
{
    lemma_remove(c.games, id);
    let r = remove_key(c.games, id);
    let n = delete_next(c, id);
    assert(n.games == r);
    if r.len() > 0 {
        let a = r[0].0;
        crate::keyorder::lemma_index_of(r, a);
        assert(index_of(r, a) == Some(0int));
        assert(lookup(r, a) is Some);
        assert(a != id);
        assert(lookup(c.games, a) == lookup(r, a));
        assert forall|k: Seq<char>| #[trigger] lookup(n.games, k) is Some && k != a implies crate::keyorder::seq_less(a, k) by {
            crate::keyorder::lemma_index_of(r, k);
            let j = index_of(r, k)->0;
            assert(r[j].0 == k);
            assert(j != 0);
            assert(crate::keyorder::seq_less(r[0].0, r[j].0));
        }
    }
}

} // verus!
