//! The voice agent's rolling transcript: append a turn, read the last turns,
//! clear. At most `MAX_STORED` turns are kept, the oldest dropped first.

use vstd::prelude::*;
use crate::args::{Arg, arg_str, arg_str_or, arg_uint, get_str_or, get_uint};
use crate::text::{append, string_of, trim, trim_str};

verus! {

/// Maximum number of turns kept in storage.
pub const MAX_STORED: usize = 200;

/// Number of turns `get` returns when no count is given.
pub const DEFAULT_RECENT: u64 = 20;

/// What a transcript call asks for.
pub enum HistoryRequest {
    /// Add one turn: the speaker's role and the trimmed text.
    Append { role: String, text: String },
    /// Return the last `n` turns.
    Get { n: usize },
    /// Erase all turns.
    Clear,
}

/// The count a `get` asks for: the given count (20 when absent), at most 200.
pub open spec fn requested_count(args: Seq<Arg>) -> usize {
    let n: usize = match arg_uint(args, 1) {
        Some(v) => v as usize,
        None => 20,
    };
    if n < 200 { n } else { 200 }
}

/// The error for an action other than append, get and clear.
pub open spec fn unknown_history_action(action: Seq<char>) -> Seq<char> {
    "Unknown action '"@ + action + "'. Use append, get, clear."@
}

/// Reads `[action, ...]`: `append <role> <text>` (role defaults to "user";
/// fails with "text required" when the trimmed text is empty), `get [n]`,
/// `clear`; any other action fails naming it.
pub fn parse_history_request(args: &Vec<Arg>) -> (r: Result<HistoryRequest, String>)
    ensures
        ({
            let action = arg_str_or(args@, 0, ""@);
            let text = trim(arg_str_or(args@, 2, ""@));
            if action == "append"@ {
                if text.len() == 0 {
                    r matches Err(e) && e@ == "text required"@
                } else {
                    r matches Ok(HistoryRequest::Append { role, text: t }) && role@ == arg_str_or(
                        args@,
                        1,
                        "user"@,
                    ) && t@ == text
                }
            } else if action == "get"@ {
                r matches Ok(HistoryRequest::Get { n }) && n == requested_count(args@)
            } else if action == "clear"@ {
                r matches Ok(HistoryRequest::Clear)
            } else {
                r matches Err(e) && e@ == unknown_history_action(action)
            }
        }),
{
    let action = get_str_or(args, 0, "");
    if crate::text::str_eq(action.as_str(), "append") {
        let role = get_str_or(args, 1, "user");
        let raw = get_str_or(args, 2, "");
        let text = trim_str(raw.as_str());
        if text.as_str().is_empty() {
            return Err(string_of("text required"));
        }
        Ok(HistoryRequest::Append { role, text })
    } else if crate::text::str_eq(action.as_str(), "get") {
        let n: usize = match get_uint(args, 1) {
            Some(v) => v as usize,
            None => 20,
        };
        Ok(HistoryRequest::Get { n: if n < 200 { n } else { 200 } })
    } else if crate::text::str_eq(action.as_str(), "clear") {
        Ok(HistoryRequest::Clear)
    } else {
        let mut e = string_of("Unknown action '");
        append(&mut e, action.as_str());
        append(&mut e, "'. Use append, get, clear.");
        Err(e)
    }
}

/// The transcript after appending `turn`: the oldest turns are dropped until
/// at most `MAX_STORED` remain.
pub open spec fn appended<T>(turns: Seq<T>, turn: T) -> Seq<T> {
    let all = turns.push(turn);
    if all.len() > MAX_STORED { all.skip(all.len() - MAX_STORED) } else { all }
}

/// Appends `turn`, then drops the oldest turns while more than `MAX_STORED`
/// remain.
pub fn append_turn<T>(turns: &mut Vec<T>, turn: T)
    ensures
        final(turns)@ == appended(old(turns)@, turn),
{
    let ghost all = old(turns)@.push(turn);
    turns.push(turn);
    while turns.len() > MAX_STORED
        invariant
            turns@.len() <= all.len(),
            turns@.len() == all.len() || turns@.len() >= MAX_STORED,
            turns@ == all.skip(all.len() - turns@.len()),
        decreases turns.len(),
    {
        let ghost before = turns@;
        turns.remove(0);
        assert(turns@ =~= all.skip(all.len() - turns@.len()));
    }
    assert(all.skip(0) =~= all);
}

/// Where the last `n` of `total` turns begin: `total - n`, or 0 when there
/// are fewer than `n`.
pub fn recent_start(total: usize, n: usize) -> (start: usize)
    ensures
        start == (if total >= n { total - n } else { 0 }),
{
    if total >= n { total - n } else { 0 }
}

/// The last `n` turns (all of them when there are fewer).
pub open spec fn recent<T>(turns: Seq<T>, n: nat) -> Seq<T> {
    if turns.len() >= n { turns.skip(turns.len() - n) } else { turns }
}

/// The last `n` turns, oldest first.
pub fn recent_turns<T>(turns: Vec<T>, n: usize) -> (r: Vec<T>)
    ensures
        r@ == recent(turns@, n as nat),
{
    let ghost orig = turns@;
    let start = recent_start(turns.len(), n);
    let mut rest = turns;
    let mut k: usize = 0;
    assert(orig.skip(0) =~= orig);
    while k < start
        invariant
            k <= start,
            start <= orig.len(),
            rest@ == orig.skip(k as int),
        decreases start - k,
    {
        rest.remove(0);
        assert(rest@ =~= orig.skip(k + 1));
        k += 1;
    }
    rest
}

// ───────────────────────── laws ─────────────────────────

/// The store never holds more than `MAX_STORED` turns once an append is done,
/// and the newest turn is always kept, last.
pub proof fn lemma_append_bounded_and_keeps_newest<T>(turns: Seq<T>, turn: T)
    ensures
        appended(turns, turn).len() <= MAX_STORED,
        appended(turns, turn).len() == (if turns.len() + 1 > MAX_STORED { MAX_STORED as int } else { turns.len() + 1 as int }),
        appended(turns, turn).last() == turn,
{
}

/// An append below the limit drops nothing: the old turns come first, in order.
pub proof fn lemma_append_below_limit_keeps_all<T>(turns: Seq<T>, turn: T)
    requires
        turns.len() < MAX_STORED,
    ensures
        appended(turns, turn) == turns.push(turn),
{
}

/// The recent window has `min(n, total)` turns and ends with the newest.
pub proof fn lemma_recent_window(total: usize, n: usize)
    ensures
        ({
            let start = if total >= n { total - n } else { 0 };
            &&& start <= total
            &&& total - start == (if n <= total { n as int } else { total as int })
        }),
{
}

/// After `clear`, `get` reads no turns, whatever count it asks for.
pub proof fn lemma_cleared_reads_empty<T>(n: nat)
    ensures
        recent(Seq::<T>::empty(), n) == Seq::<T>::empty(),
{
}

/// After an append, a `get` of at least one turn ends with the new turn, and
/// reads min(n, stored) turns.
pub proof fn lemma_append_then_recent<T>(turns: Seq<T>, turn: T, n: nat)
    requires
        n >= 1,
    ensures
        recent(appended(turns, turn), n).last() == turn,
        recent(appended(turns, turn), n).len() == (if appended(turns, turn).len() >= n {
            n as int
        } else {
            appended(turns, turn).len() as int
        }),
{
    lemma_append_bounded_and_keeps_newest(turns, turn);
}

} // verus!
