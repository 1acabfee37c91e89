//! Context documents for chat agents: which files a comma-separated list of
//! paths and globs selects, and how the selected documents are framed.

use vstd::prelude::*;
use crate::text::{append, chars_of, decimal, decimal_string, string_from_chars, string_of, trim, trim_chars};
use crate::glob::{glob, simple_glob_match};

verus! {

broadcast use vstd::string::group_string_axioms;

/// The pieces of `s` between occurrences of `c`, as `str::split(c)` yields
/// them (always at least one piece; empty pieces are kept).
pub open spec fn split_on(s: Seq<char>, c: char) -> Seq<Seq<char>>
    decreases s.len(),
{
    if s.len() == 0 {
        seq![Seq::empty()]
    } else {
        let prev = split_on(s.drop_last(), c);
        if s.last() == c {
            prev.push(Seq::empty())
        } else {
            prev.update(prev.len() - 1, prev.last().push(s.last()))
        }
    }
}

/// The pieces joined back together with `c` between them.
pub open spec fn join_with(pieces: Seq<Seq<char>>, c: char) -> Seq<char>
    decreases pieces.len(),
{
    if pieces.len() == 0 {
        Seq::empty()
    } else if pieces.len() == 1 {
        pieces[0]
    } else {
        join_with(pieces.drop_last(), c).push(c) + pieces.last()
    }
}

/// The trimmed, non-empty entries of a comma-separated list.
pub open spec fn context_pattern_list(csv: Seq<char>) -> Seq<Seq<char>> {
    split_on(csv, ',').map_values(|p: Seq<char>| trim(p)).filter(|p: Seq<char>| p.len() > 0)
}

/// Documents collected so far, and the names already taken.
pub struct DocsState {
    pub docs: Seq<Seq<char>>,
    pub seen: Set<Seq<char>>,
}

/// Take `content` under `name` unless that name was taken before.
pub open spec fn take_doc(st: DocsState, name: Seq<char>, content: Seq<char>) -> DocsState {
    if st.seen.contains(name) {
        st
    } else {
        DocsState { docs: st.docs.push(content), seen: st.seen.insert(name) }
    }
}

/// The UTF-8 bytes of a text.
pub open spec fn utf8(s: Seq<char>) -> Seq<u8> {
    vstd::utf8::encode_utf8(s)
}

/// The first `n` listed paths scanned for `pattern`: each that the glob
/// matches and that could be read is taken, under its own path.
pub open spec fn scan_paths(
    st: DocsState,
    pattern: Seq<char>,
    paths: Seq<Seq<char>>,
    reads: Seq<Option<Seq<char>>>,
    n: nat,
) -> DocsState
    decreases n,
{
    if n == 0 {
        st
    } else {
        let prev = scan_paths(st, pattern, paths, reads, (n - 1) as nat);
        let j = n - 1;
        if glob(utf8(pattern), utf8(paths[j])) && reads[j] is Some {
            take_doc(prev, paths[j], reads[j]->0)
        } else {
            prev
        }
    }
}

/// The first `n` patterns processed: a pattern that reads directly as a file
/// is taken under its own name; otherwise it is matched against every path.
pub open spec fn scan_patterns(
    patterns: Seq<Seq<char>>,
    direct: Seq<Option<Seq<char>>>,
    paths: Seq<Seq<char>>,
    reads: Seq<Option<Seq<char>>>,
    n: nat,
) -> DocsState
    decreases n,
{
    if n == 0 {
        DocsState { docs: Seq::empty(), seen: Set::empty() }
    } else {
        let prev = scan_patterns(patterns, direct, paths, reads, (n - 1) as nat);
        let i = n - 1;
        match direct[i] {
            Some(content) => take_doc(prev, patterns[i], content),
            None => scan_paths(prev, patterns[i], paths, reads, paths.len()),
        }
    }
}

/// The documents that a list of patterns selects, given what reading each
/// pattern directly gave (`direct`) and what reading each listed path gave
/// (`reads`).
pub open spec fn selected_docs(
    patterns: Seq<Seq<char>>,
    direct: Seq<Option<Seq<char>>>,
    paths: Seq<Seq<char>>,
    reads: Seq<Option<Seq<char>>>,
) -> Seq<Seq<char>> {
    scan_patterns(patterns, direct, paths, reads, patterns.len()).docs
}

/// The texts of a list of strings.
pub open spec fn strings_view(v: Seq<String>) -> Seq<Seq<char>> {
    v.map_values(|s: String| s@)
}

/// The texts of a list of optional strings.
pub open spec fn opt_strings_view(v: Seq<Option<String>>) -> Seq<Option<Seq<char>>> {
    v.map_values(|o: Option<String>| crate::args::opt_chars(o))
}

/// One document framed with its position.
pub open spec fn doc_block(index: nat, doc: Seq<char>) -> Seq<char> {
    "<doc index=\""@ + decimal(index) + "\">\n"@ + doc + "\n</doc>\n"@
}

/// The framed blocks of the first `n` documents.
pub open spec fn doc_blocks(docs: Seq<Seq<char>>, n: nat) -> Seq<char>
    decreases n,
{
    if n == 0 {
        Seq::empty()
    } else {
        doc_blocks(docs, (n - 1) as nat) + doc_block((n - 1) as nat, docs[n - 1])
    }
}

/// The context block for a list of documents: nothing when there are none.
pub open spec fn context_block(docs: Seq<Seq<char>>) -> Seq<char> {
    if docs.len() == 0 {
        Seq::empty()
    } else {
        "<context>\n"@ + doc_blocks(docs, docs.len()) + "</context>"@
    }
}

// ───────────────────────── code ─────────────────────────

/// `str::split(c)`: the pieces of `s` between occurrences of `c`.
pub fn split_chars(s: &Vec<char>, c: char) -> (r: Vec<Vec<char>>)
    ensures
        r@.map_values(|p: Vec<char>| p@) == split_on(s@, c),
{
    let mut done: Vec<Vec<char>> = Vec::new();
    let mut cur: Vec<char> = Vec::new();
    let mut i: usize = 0;
    assert(s@.take(0) =~= Seq::<char>::empty());
    while i < s.len()
        invariant
            i <= s.len(),
            done@.map_values(|p: Vec<char>| p@).push(cur@) == split_on(s@.take(i as int), c),
        decreases s.len() - i,
    {
        let ghost before = done@.map_values(|p: Vec<char>| p@).push(cur@);
        assert(s@.take(i + 1).drop_last() =~= s@.take(i as int));
        assert(s@.take(i + 1).last() == s@[i as int]);
        if s[i] == c {
            let finished = cur;
            done.push(finished);
            cur = Vec::new();
            assert(done@.map_values(|p: Vec<char>| p@).push(cur@) =~= before.push(Seq::empty()));
        } else {
            cur.push(s[i]);
            assert(done@.map_values(|p: Vec<char>| p@).push(cur@) =~= before.update(
                before.len() - 1,
                before.last().push(s@[i as int]),
            ));
        }
        i += 1;
    }
    assert(s@.take(s.len() as int) =~= s@);
    done.push(cur);
    done
}

/// The trimmed, non-empty entries of a comma-separated list of paths and globs.
pub fn context_patterns(patterns_csv: &str) -> (r: Vec<String>)
    ensures
        strings_view(r@) == context_pattern_list(patterns_csv@),
{
    let cs = chars_of(patterns_csv);
    let pieces = split_chars(&cs, ',');
    let ghost pv = pieces@.map_values(|p: Vec<char>| p@);
    let ghost trimmed = pv.map_values(|p: Seq<char>| trim(p));
    let mut out: Vec<String> = Vec::new();
    let mut i: usize = 0;
    while i < pieces.len()
        invariant
            i <= pieces.len(),
            pv == pieces@.map_values(|p: Vec<char>| p@),
            trimmed == pv.map_values(|p: Seq<char>| trim(p)),
            strings_view(out@) == trimmed.take(i as int).filter(|p: Seq<char>| p.len() > 0),
        decreases pieces.len() - i,
    {
        let t = trim_chars(&pieces[i]);
        assert(t@ == trimmed[i as int]);
        assert(trimmed.take(i + 1).drop_last() =~= trimmed.take(i as int));
        reveal_with_fuel(Seq::filter, 1);
        if t.len() > 0 {
            let ts = string_from_chars(&t);
            out.push(ts);
            assert(strings_view(out@) =~= strings_view(out@.drop_last()).push(ts@));
        } else {
            assert(t@.len() == 0);
        }
        i += 1;
    }
    assert(trimmed.take(pieces.len() as int) =~= trimmed);
    out
}

/// Adds `content` under `name` unless that name was taken before.
fn take_doc_exec(docs: &mut Vec<String>, seen: &mut Vec<String>, name: &String, content: &String)
    ensures
        ({
            let before = DocsState { docs: strings_view(old(docs)@), seen: strings_view(old(seen)@).to_set() };
            let after = DocsState { docs: strings_view(final(docs)@), seen: strings_view(final(seen)@).to_set() };
            after == take_doc(before, name@, content@)
        }),
{
    let mut k: usize = 0;
    while k < seen.len()
        invariant
            k <= seen.len(),
            forall|m: int| 0 <= m < k ==> seen@[m]@ != name@,
        decreases seen.len() - k,
    {
        if seen[k] == *name {
            assert(strings_view(seen@)[k as int] == name@);
            assert(strings_view(seen@).to_set().contains(name@));
            return;
        }
        k += 1;
    }
    assert(!strings_view(seen@).to_set().contains(name@)) by {
        if strings_view(seen@).to_set().contains(name@) {
            let m = choose|m: int| 0 <= m < strings_view(seen@).len() && strings_view(seen@)[m] == name@;
            assert(seen@[m]@ == name@);
        }
    }
    let ghost old_docs = docs@;
    let ghost old_seen = seen@;
    docs.push(content.clone());
    seen.push(name.clone());
    assert(strings_view(docs@) =~= strings_view(old_docs).push(content@));
    assert(strings_view(seen@) =~= strings_view(old_seen).push(name@));
    assert forall|x: Seq<char>| #[trigger] strings_view(seen@).to_set().contains(x) <==> strings_view(
        old_seen,
    ).to_set().insert(name@).contains(x) by {
        let nv = strings_view(seen@);
        let ov = strings_view(old_seen);
        if nv.contains(x) {
            let m = choose|m: int| 0 <= m < nv.len() && nv[m] == x;
            if m < ov.len() {
                assert(ov[m] == x);
                assert(ov.contains(x));
            }
        }
        if ov.contains(x) {
            let m = choose|m: int| 0 <= m < ov.len() && ov[m] == x;
            assert(nv[m] == x);
            assert(nv.contains(x));
        }
        if x == name@ {
            assert(nv[nv.len() - 1] == x);
            assert(nv.contains(x));
        }
    }
    assert(strings_view(seen@).to_set() =~= strings_view(old_seen).to_set().insert(name@));
}

/// The documents that `patterns` select. `direct[i]` is what reading
/// `patterns[i]` as a file gave; `path_reads[j]` what reading `all_paths[j]`
/// gave (it is consulted only for paths that some pattern's glob matches).
/// A name already taken is not taken twice.
pub fn select_context_docs(
    patterns: &Vec<String>,
    direct: &Vec<Option<String>>,
    all_paths: &Vec<String>,
    path_reads: &Vec<Option<String>>,
) -> (r: Vec<String>)
    requires
        direct.len() == patterns.len(),
        path_reads.len() == all_paths.len(),
    ensures
        strings_view(r@) == selected_docs(
            strings_view(patterns@),
            opt_strings_view(direct@),
            strings_view(all_paths@),
            opt_strings_view(path_reads@),
        ),
{
    let ghost pv = strings_view(patterns@);
    let ghost dv = opt_strings_view(direct@);
    let ghost av = strings_view(all_paths@);
    let ghost rv = opt_strings_view(path_reads@);
    let mut docs: Vec<String> = Vec::new();
    let mut seen: Vec<String> = Vec::new();
    let mut i: usize = 0;
    assert(strings_view(docs@) =~= Seq::<Seq<char>>::empty());
    assert(strings_view(seen@).to_set() =~= Set::<Seq<char>>::empty());
    while i < patterns.len()
        invariant
            i <= patterns.len(),
            direct.len() == patterns.len(),
            path_reads.len() == all_paths.len(),
            pv == strings_view(patterns@),
            dv == opt_strings_view(direct@),
            av == strings_view(all_paths@),
            rv == opt_strings_view(path_reads@),
            (DocsState { docs: strings_view(docs@), seen: strings_view(seen@).to_set() })
                == scan_patterns(pv, dv, av, rv, i as nat),
        decreases patterns.len() - i,
    {
        let ghost start = DocsState { docs: strings_view(docs@), seen: strings_view(seen@).to_set() };
        match &direct[i] {
            Some(content) => {
                take_doc_exec(&mut docs, &mut seen, &patterns[i], content);
            },
            None => {
                let mut j: usize = 0;
                while j < all_paths.len()
                    invariant
                        j <= all_paths.len(),
                        i < patterns.len(),
                        path_reads.len() == all_paths.len(),
                        pv == strings_view(patterns@),
                        av == strings_view(all_paths@),
                        rv == opt_strings_view(path_reads@),
                        (DocsState { docs: strings_view(docs@), seen: strings_view(seen@).to_set() })
                            == scan_paths(start, pv[i as int], av, rv, j as nat),
                    decreases all_paths.len() - j,
                {
                    if simple_glob_match(patterns[i].as_str(), all_paths[j].as_str()) {
                        match &path_reads[j] {
                            Some(content) => {
                                take_doc_exec(&mut docs, &mut seen, &all_paths[j], content);
                            },
                            None => {},
                        }
                    }
                    j += 1;
                }
            },
        }
        i += 1;
    }
    docs
}

/// The context block that frames `docs` for a prompt:
/// `<context>` with one `<doc index="i">` element per document, or the empty
/// string when there are no documents.
pub fn format_context_block(docs: &[String]) -> (r: String)
    ensures
        r@ == context_block(docs@.map_values(|s: String| s@)),
{
    let ghost dv = docs@.map_values(|s: String| s@);
    if docs.len() == 0 {
        return String::new();
    }
    let mut out = string_of("<context>\n");
    let mut i: usize = 0;
    while i < docs.len()
        invariant
            i <= docs.len(),
            dv == docs@.map_values(|s: String| s@),
            out@ == "<context>\n"@ + doc_blocks(dv, i as nat),
        decreases docs.len() - i,
    {
        append(&mut out, "<doc index=\"");
        let n = decimal_string(i as u64);
        append(&mut out, n.as_str());
        append(&mut out, "\">\n");
        append(&mut out, docs[i].as_str());
        append(&mut out, "\n</doc>\n");
        assert(out@ =~= "<context>\n"@ + doc_blocks(dv, (i + 1) as nat));
        i += 1;
    }
    append(&mut out, "</context>");
    out
}

// ───────────────────────── laws ─────────────────────────

/// Joining the pieces of a split with the separator gives back the text.
pub proof fn lemma_split_join(s: Seq<char>, c: char)
    ensures
        join_with(split_on(s, c), c) == s,
        split_on(s, c).len() >= 1,
    decreases s.len(),
{
    if s.len() > 0 {
        lemma_split_join(s.drop_last(), c);
        let prev = split_on(s.drop_last(), c);
        if s.last() == c {
            assert(prev.push(Seq::empty()).drop_last() =~= prev);
            assert(s =~= s.drop_last().push(c) + Seq::<char>::empty());
        } else {
            let next = prev.update(prev.len() - 1, prev.last().push(s.last()));
            assert(next.drop_last() =~= prev.drop_last());
            if prev.len() == 1 {
                assert(s =~= prev[0].push(s.last()));
            } else {
                assert(join_with(prev, c) == join_with(prev.drop_last(), c).push(c) + prev.last());
                assert(s =~= s.drop_last().push(s.last()));
                assert(s =~= join_with(prev.drop_last(), c).push(c) + prev.last().push(s.last()));
            }
        }
    }
}

/// No piece of a split holds the separator.
pub proof fn lemma_split_pieces_free_of_separator(s: Seq<char>, c: char, k: int, m: int)
    requires
        0 <= k < split_on(s, c).len(),
        0 <= m < split_on(s, c)[k].len(),
    ensures
        split_on(s, c)[k][m] != c,
    decreases s.len(),
{
    if s.len() > 0 {
        lemma_split_join(s.drop_last(), c);
        let prev = split_on(s.drop_last(), c);
        if s.last() == c {
            if k < prev.len() {
                lemma_split_pieces_free_of_separator(s.drop_last(), c, k, m);
            }
        } else {
            if k < prev.len() - 1 {
                lemma_split_pieces_free_of_separator(s.drop_last(), c, k, m);
            } else if m < prev.last().len() {
                lemma_split_pieces_free_of_separator(s.drop_last(), c, k, m);
            }
        }
    }
}

/// The context block is empty exactly when there are no documents.
pub proof fn lemma_context_block_empty_iff_no_docs(docs: Seq<Seq<char>>)
    ensures
        (context_block(docs).len() == 0) <==> (docs.len() == 0),
{
    reveal_strlit("<context>\n");
}

/// `name` is a pattern that was read directly, or a listed path that was read.
pub open spec fn name_from_inputs(
    name: Seq<char>,
    patterns: Seq<Seq<char>>,
    direct: Seq<Option<Seq<char>>>,
    paths: Seq<Seq<char>>,
    reads: Seq<Option<Seq<char>>>,
) -> bool {
    ||| exists|j: int| 0 <= j < patterns.len() && patterns[j] == name && #[trigger] direct[j] is Some
    ||| exists|j: int| 0 <= j < paths.len() && paths[j] == name && #[trigger] reads[j] is Some
}

/// `doc` is what some direct read or some path read gave.
pub open spec fn doc_from_inputs(doc: Seq<char>, direct: Seq<Option<Seq<char>>>, reads: Seq<Option<Seq<char>>>) -> bool {
    ||| exists|j: int| 0 <= j < direct.len() && #[trigger] direct[j] == Some(doc)
    ||| exists|j: int| 0 <= j < reads.len() && #[trigger] reads[j] == Some(doc)
}

/// One name per document, each name once, every name and document from the
/// inputs.
pub open spec fn docs_state_ok(
    st: DocsState,
    patterns: Seq<Seq<char>>,
    direct: Seq<Option<Seq<char>>>,
    paths: Seq<Seq<char>>,
    reads: Seq<Option<Seq<char>>>,
) -> bool {
    &&& st.seen.finite()
    &&& st.docs.len() == st.seen.len()
    &&& forall|nm: Seq<char>| #[trigger] st.seen.contains(nm) ==> name_from_inputs(nm, patterns, direct, paths, reads)
    &&& forall|i: int| 0 <= i < st.docs.len() ==> doc_from_inputs(#[trigger] st.docs[i], direct, reads)
}

proof fn lemma_take_doc_ok(
    st: DocsState,
    name: Seq<char>,
    content: Seq<char>,
    patterns: Seq<Seq<char>>,
    direct: Seq<Option<Seq<char>>>,
    paths: Seq<Seq<char>>,
    reads: Seq<Option<Seq<char>>>,
)
    requires
        docs_state_ok(st, patterns, direct, paths, reads),
        name_from_inputs(name, patterns, direct, paths, reads),
        doc_from_inputs(content, direct, reads),
    ensures
        docs_state_ok(take_doc(st, name, content), patterns, direct, paths, reads),
{
    let t = take_doc(st, name, content);
    if !st.seen.contains(name) {
        assert(t.seen.len() == st.seen.len() + 1);
        assert forall|i: int| 0 <= i < t.docs.len() implies doc_from_inputs(#[trigger] t.docs[i], direct, reads) by {
            if i < st.docs.len() {
                assert(t.docs[i] == st.docs[i]);
            }
        }
    }
}

proof fn lemma_scan_paths_ok(
    st: DocsState,
    pattern: Seq<char>,
    patterns: Seq<Seq<char>>,
    direct: Seq<Option<Seq<char>>>,
    paths: Seq<Seq<char>>,
    reads: Seq<Option<Seq<char>>>,
    n: nat,
)
    requires
        docs_state_ok(st, patterns, direct, paths, reads),
        n <= paths.len(),
        reads.len() == paths.len(),
    ensures
        docs_state_ok(scan_paths(st, pattern, paths, reads, n), patterns, direct, paths, reads),
    decreases n,
{
    if n > 0 {
        lemma_scan_paths_ok(st, pattern, patterns, direct, paths, reads, (n - 1) as nat);
        let prev = scan_paths(st, pattern, paths, reads, (n - 1) as nat);
        let j = n - 1;
        if glob(utf8(pattern), utf8(paths[j])) && reads[j] is Some {
            assert(name_from_inputs(paths[j], patterns, direct, paths, reads));
            assert(doc_from_inputs(reads[j]->0, direct, reads));
            lemma_take_doc_ok(prev, paths[j], reads[j]->0, patterns, direct, paths, reads);
        }
    }
}

proof fn lemma_scan_patterns_ok(
    patterns: Seq<Seq<char>>,
    direct: Seq<Option<Seq<char>>>,
    paths: Seq<Seq<char>>,
    reads: Seq<Option<Seq<char>>>,
    n: nat,
)
    requires
        n <= patterns.len(),
        direct.len() == patterns.len(),
        reads.len() == paths.len(),
    ensures
        docs_state_ok(scan_patterns(patterns, direct, paths, reads, n), patterns, direct, paths, reads),
    decreases n,
{
    if n == 0 {
        let st = scan_patterns(patterns, direct, paths, reads, 0);
        assert(st.seen =~= Set::<Seq<char>>::empty());
    } else {
        lemma_scan_patterns_ok(patterns, direct, paths, reads, (n - 1) as nat);
        let prev = scan_patterns(patterns, direct, paths, reads, (n - 1) as nat);
        let i = n - 1;
        match direct[i] {
            Some(content) => {
                assert(name_from_inputs(patterns[i], patterns, direct, paths, reads));
                assert(doc_from_inputs(content, direct, reads));
                lemma_take_doc_ok(prev, patterns[i], content, patterns, direct, paths, reads);
            },
            None => {
                lemma_scan_paths_ok(prev, patterns[i], patterns, direct, paths, reads, paths.len());
            },
        }
    }
}

/// Every selected document is taken under a file name of its own: the names
/// recorded are as many as the documents, so none is taken twice and none is
/// taken without being recorded (whether read directly or found by a glob);
/// each name is a pattern that was read directly or a listed path that was
/// read, and each document is what one of those reads gave.
pub proof fn lemma_each_file_taken_once(
    patterns: Seq<Seq<char>>,
    direct: Seq<Option<Seq<char>>>,
    paths: Seq<Seq<char>>,
    reads: Seq<Option<Seq<char>>>,
)
    requires
        direct.len() == patterns.len(),
        reads.len() == paths.len(),
    ensures
        ({
            let st = scan_patterns(patterns, direct, paths, reads, patterns.len());
            &&& st.docs == selected_docs(patterns, direct, paths, reads)
            &&& st.seen.finite()
            &&& st.docs.len() == st.seen.len()
            &&& forall|nm: Seq<char>| #[trigger] st.seen.contains(nm) ==> name_from_inputs(nm, patterns, direct, paths, reads)
            &&& forall|i: int| 0 <= i < st.docs.len() ==> doc_from_inputs(#[trigger] st.docs[i], direct, reads)
        }),
{
    lemma_scan_patterns_ok(patterns, direct, paths, reads, patterns.len());
}

} // verus!
