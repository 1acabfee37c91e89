//! Byte-wise glob matching: `*` matches any run of bytes, `?` exactly one
//! byte, every other byte itself.

use vstd::prelude::*;

verus! {

/// Whether the glob `p` matches all of `t`.
pub open spec fn glob(p: Seq<u8>, t: Seq<u8>) -> bool
    decreases p.len(), t.len(),
{
    if p.len() == 0 {
        t.len() == 0
    } else if p[0] == 42u8 {
        // '*': match nothing, or swallow one byte and try again
        glob(p.drop_first(), t) || (t.len() > 0 && glob(p, t.drop_first()))
    } else if p[0] == 63u8 {
        // '?': exactly one byte
        t.len() > 0 && glob(p.drop_first(), t.drop_first())
    } else {
        t.len() > 0 && p[0] == t[0] && glob(p.drop_first(), t.drop_first())
    }
}

/// A pattern without `*` and `?`.
pub open spec fn is_literal(p: Seq<u8>) -> bool {
    forall|i: int| 0 <= i < p.len() ==> #[trigger] p[i] != 42u8 && p[i] != 63u8
}

fn glob_at(pattern: &[u8], text: &[u8], pi: usize, ti: usize) -> (r: bool)
    requires
        pi <= pattern@.len(),
        ti <= text@.len(),
    ensures
        r == glob(pattern@.skip(pi as int), text@.skip(ti as int)),
    decreases pattern@.len() - pi, text@.len() - ti,
{
    let ghost p = pattern@.skip(pi as int);
    let ghost t = text@.skip(ti as int);
    if pi == pattern.len() {
        return ti == text.len();
    }
    assert(p.drop_first() =~= pattern@.skip(pi + 1));
    assert(ti < text@.len() ==> t.drop_first() =~= text@.skip(ti + 1));
    let c = pattern[pi];
    if c == 42u8 {
        glob_at(pattern, text, pi + 1, ti) || (ti < text.len() && glob_at(pattern, text, pi, ti + 1))
    } else if c == 63u8 {
        ti < text.len() && glob_at(pattern, text, pi + 1, ti + 1)
    } else {
        ti < text.len() && c == text[ti] && glob_at(pattern, text, pi + 1, ti + 1)
    }
}

/// Whether the glob `pattern` matches all of `text`, byte by byte.
pub fn glob_match_inner(pattern: &[u8], text: &[u8]) -> (r: bool)
    ensures
        r == glob(pattern@, text@),
{
    assert(pattern@.skip(0) =~= pattern@);
    assert(text@.skip(0) =~= text@);
    glob_at(pattern, text, 0, 0)
}

/// Whether the glob `pattern` matches all of `text`, compared on their
/// UTF-8 bytes (so `?` stands for one byte, not one character).
pub fn simple_glob_match(pattern: &str, text: &str) -> (r: bool)
    ensures
        r == glob(vstd::utf8::encode_utf8(pattern@), vstd::utf8::encode_utf8(text@)),
{
    glob_match_inner(pattern.as_bytes(), text.as_bytes())
}

// ───────────────────────── laws ─────────────────────────

/// The pattern `*` matches every text.
pub proof fn lemma_star_matches_all(t: Seq<u8>)
    ensures
        glob(seq![42u8], t),
    decreases t.len(),
{
    let p = seq![42u8];
    reveal_with_fuel(glob, 2);
    assert(p[0] == 42u8);
    assert(p.drop_first() =~= Seq::<u8>::empty());
    if t.len() > 0 {
        lemma_star_matches_all(t.drop_first());
    }
}

/// Every pattern matches itself: `*` and `?` may stand for themselves.
pub proof fn lemma_pattern_matches_itself(p: Seq<u8>)
    ensures
        glob(p, p),
    decreases p.len(),
{
    if p.len() > 0 {
        lemma_pattern_matches_itself(p.drop_first());
        if p[0] == 42u8 {
            // the star swallows the '*' byte, then the rest matches itself
            assert(glob(p, p.drop_first()));
        }
    }
}

/// A pattern without wildcards matches exactly the text equal to it.
pub proof fn lemma_literal_matches_only_itself(p: Seq<u8>, t: Seq<u8>)
    requires
        is_literal(p),
    ensures
        glob(p, t) <==> p == t,
    decreases p.len(),
{
    if p.len() > 0 {
        assert(is_literal(p.drop_first())) by {
            assert forall|i: int| 0 <= i < p.drop_first().len() implies #[trigger] p.drop_first()[i] != 42u8
                && p.drop_first()[i] != 63u8 by {
                assert(p.drop_first()[i] == p[i + 1]);
            }
        }
        assert(p[0] != 42u8 && p[0] != 63u8);
        if t.len() > 0 {
            lemma_literal_matches_only_itself(p.drop_first(), t.drop_first());
            if p == t {
                assert(p.drop_first() =~= t.drop_first());
            }
            if p[0] == t[0] && p.drop_first() == t.drop_first() {
                assert forall|i: int| 0 <= i < p.len() implies p[i] == t[i] by {
                    if i > 0 {
                        assert(p[i] == p.drop_first()[i - 1]);
                        assert(t[i] == t.drop_first()[i - 1]);
                    }
                }
                assert(p =~= t);
            }
        }
    } else {
        if t.len() == 0 {
            assert(p =~= t);
        }
    }
}

/// The pattern `?` matches exactly the one-byte texts.
pub proof fn lemma_question_matches_one_byte(t: Seq<u8>)
    ensures
        glob(seq![63u8], t) <==> t.len() == 1,
{
    let p = seq![63u8];
    reveal_with_fuel(glob, 2);
    assert(p[0] == 63u8);
    assert(p.drop_first() =~= Seq::<u8>::empty());
    if t.len() > 0 {
        assert(t.drop_first().len() == 0 <==> t.len() == 1);
    }
}

/// A literal prefix followed by `*` matches exactly the texts that begin with
/// that prefix.
pub proof fn lemma_prefix_star(lit: Seq<u8>, t: Seq<u8>)
    requires
        is_literal(lit),
    ensures
        glob(lit.push(42u8), t) <==> (lit.len() <= t.len() && t.subrange(0, lit.len() as int) == lit),
    decreases lit.len(),
{
    let p = lit.push(42u8);
    if lit.len() == 0 {
        assert(p =~= seq![42u8]);
        lemma_star_matches_all(t);
        assert(t.subrange(0, 0) =~= lit);
    } else {
        assert(p.drop_first() =~= lit.drop_first().push(42u8));
        assert(p[0] == lit[0]);
        assert(lit[0] != 42u8 && lit[0] != 63u8);
        assert(is_literal(lit.drop_first())) by {
            assert forall|i: int| 0 <= i < lit.drop_first().len() implies #[trigger] lit.drop_first()[i]
                != 42u8 && lit.drop_first()[i] != 63u8 by {
                assert(lit.drop_first()[i] == lit[i + 1]);
            }
        }
        if t.len() > 0 {
            lemma_prefix_star(lit.drop_first(), t.drop_first());
            if lit.len() <= t.len() {
                assert(t.drop_first().subrange(0, lit.drop_first().len() as int) =~= t.subrange(
                    0,
                    lit.len() as int,
                ).drop_first());
                if t.subrange(0, lit.len() as int) == lit {
                    assert(t[0] == t.subrange(0, lit.len() as int)[0]);
                }
                if t[0] == lit[0] && t.subrange(0, lit.len() as int).drop_first() == lit.drop_first() {
                    let ts = t.subrange(0, lit.len() as int);
                    assert forall|i: int| 0 <= i < lit.len() implies ts[i] == lit[i] by {
                        if i > 0 {
                            assert(ts[i] == ts.drop_first()[i - 1]);
                            assert(lit[i] == lit.drop_first()[i - 1]);
                        }
                    }
                    assert(ts =~= lit);
                }
            }
        }
    }
}

} // verus!
