//! Virtual file system calls: which operation a call asks for, and the
//! prefix filter of listings.

use vstd::prelude::*;
use crate::args::{Arg, arg_str_or, get_str_or};
use crate::text::{append, chars_of, starts_with, starts_with_chars, str_eq, string_of, trim_char_end};

verus! {

broadcast use vstd::string::group_string_axioms;

/// What a file system call asks for.
pub enum VfsRequest {
    Read { path: String },
    Write { path: String, content: String },
    Append { path: String, content: String },
    List { prefix: String },
    ListDirs { prefix: String },
    Delete { path: String },
    Exists { path: String },
    IsDir { path: String },
    Mkdir { path: String },
    Stat { path: String },
}

/// The error for an unknown action.
pub open spec fn unknown_vfs_action(action: Seq<char>) -> Seq<char> {
    "Unknown action: "@ + action
        + ". Use: read, write, append, list, list_dirs, delete, exists, is_dir, mkdir, stat"@
}

/// The actions that work on one path, which must not be empty.
pub open spec fn needs_path(action: Seq<char>) -> bool {
    action == "read"@ || action == "write"@ || action == "append"@ || action == "delete"@
        || action == "exists"@ || action == "is_dir"@ || action == "mkdir"@ || action == "stat"@
}

/// What a VFS call `[action, path, content]` asks for.
pub open spec fn vfs_request_ok(args: Seq<Arg>, r: Result<VfsRequest, String>) -> bool {
    let action = arg_str_or(args, 0, "list"@);
    let path = arg_str_or(args, 1, ""@);
    let content = arg_str_or(args, 2, ""@);
    if needs_path(action) && path.len() == 0 {
        r matches Err(e) && e@ == "Path required"@
    } else if action == "read"@ {
        r matches Ok(VfsRequest::Read { path: p }) && p@ == path
    } else if action == "write"@ {
        r matches Ok(VfsRequest::Write { path: p, content: c }) && p@ == path && c@ == content
    } else if action == "append"@ {
        r matches Ok(VfsRequest::Append { path: p, content: c }) && p@ == path && c@ == content
    } else if action == "list"@ {
        r matches Ok(VfsRequest::List { prefix }) && prefix@ == path
    } else if action == "list_dirs"@ {
        r matches Ok(VfsRequest::ListDirs { prefix }) && prefix@ == path
    } else if action == "delete"@ {
        r matches Ok(VfsRequest::Delete { path: p }) && p@ == path
    } else if action == "exists"@ {
        r matches Ok(VfsRequest::Exists { path: p }) && p@ == path
    } else if action == "is_dir"@ {
        r matches Ok(VfsRequest::IsDir { path: p }) && p@ == path
    } else if action == "mkdir"@ {
        r matches Ok(VfsRequest::Mkdir { path: p }) && p@ == path
    } else if action == "stat"@ {
        r matches Ok(VfsRequest::Stat { path: p }) && p@ == path
    } else {
        r matches Err(e) && e@ == unknown_vfs_action(action)
    }
}

/// Reads `[action, path, content]`: the action defaults to "list"; the
/// single-path actions fail with "Path required" on an empty path.
pub fn parse_vfs_request(args: &Vec<Arg>) -> (r: Result<VfsRequest, String>)
    ensures
        vfs_request_ok(args@, r),
{
    let action = get_str_or(args, 0, "list");
    let path = get_str_or(args, 1, "");
    let content = get_str_or(args, 2, "");
    let a = action.as_str();
    let single = str_eq(a, "read") || str_eq(a, "write") || str_eq(a, "append") || str_eq(a, "delete")
        || str_eq(a, "exists") || str_eq(a, "is_dir") || str_eq(a, "mkdir") || str_eq(a, "stat");
    if single && path.as_str().is_empty() {
        return Err(string_of("Path required"));
    }
    if str_eq(a, "read") {
        Ok(VfsRequest::Read { path })
    } else if str_eq(a, "write") {
        Ok(VfsRequest::Write { path, content })
    } else if str_eq(a, "append") {
        Ok(VfsRequest::Append { path, content })
    } else if str_eq(a, "list") {
        Ok(VfsRequest::List { prefix: path })
    } else if str_eq(a, "list_dirs") {
        Ok(VfsRequest::ListDirs { prefix: path })
    } else if str_eq(a, "delete") {
        Ok(VfsRequest::Delete { path })
    } else if str_eq(a, "exists") {
        Ok(VfsRequest::Exists { path })
    } else if str_eq(a, "is_dir") {
        Ok(VfsRequest::IsDir { path })
    } else if str_eq(a, "mkdir") {
        Ok(VfsRequest::Mkdir { path })
    } else if str_eq(a, "stat") {
        Ok(VfsRequest::Stat { path })
    } else {
        let mut e = string_of("Unknown action: ");
        append(&mut e, a);
        append(&mut e, ". Use: read, write, append, list, list_dirs, delete, exists, is_dir, mkdir, stat");
        Err(e)
    }
}

/// The listing for a prefix: everything when the prefix is empty, else the
/// names that begin with the prefix stripped of trailing '/'.
pub open spec fn listed(all: Seq<Seq<char>>, prefix: Seq<char>) -> Seq<Seq<char>> {
    if prefix.len() == 0 {
        all
    } else {
        all.filter(|f: Seq<char>| starts_with(f, trim_char_end(prefix, '/')))
    }
}

fn trim_slashes_end(s: &Vec<char>) -> (r: Vec<char>)
    ensures
        r@ == trim_char_end(s@, '/'),
{
    let mut j: usize = s.len();
    assert(s@.take(s.len() as int) =~= s@);
    while j > 0 && s[j - 1] == '/'
        invariant
            j <= s.len(),
            trim_char_end(s@.take(j as int), '/') == trim_char_end(s@, '/'),
        decreases j,
    {
        assert(s@.take(j as int).drop_last() =~= s@.take(j - 1));
        j -= 1;
    }
    let mut out: Vec<char> = Vec::new();
    let mut k: usize = 0;
    while k < j
        invariant
            k <= j,
            j <= s.len(),
            out@ == s@.take(k as int),
        decreases j - k,
    {
        out.push(s[k]);
        assert(s@.take(k + 1) =~= s@.take(k as int).push(s@[k as int]));
        k += 1;
    }
    out
}

/// The names of `all` that a listing with `prefix` shows, in order.
pub fn filter_by_prefix(all: &Vec<String>, prefix: &str) -> (r: Vec<String>)
    ensures
        r@.map_values(|s: String| s@) == listed(all@.map_values(|s: String| s@), prefix@),
{
    let ghost av = all@.map_values(|s: String| s@);
    let pc = chars_of(prefix);
    let trimmed = trim_slashes_end(&pc);
    let ghost keep = |f: Seq<char>| starts_with(f, trim_char_end(prefix@, '/'));
    let mut out: Vec<String> = Vec::new();
    let mut i: usize = 0;
    while i < all.len()
        invariant
            i <= all.len(),
            av == all@.map_values(|s: String| s@),
            trimmed@ == trim_char_end(prefix@, '/'),
            pc@ == prefix@,
            forall|f: Seq<char>| #[trigger] keep(f) == starts_with(f, trim_char_end(prefix@, '/')),
            prefix@.len() == 0 ==> out@.map_values(|s: String| s@) == av.take(i as int),
            prefix@.len() > 0 ==> out@.map_values(|s: String| s@) == av.take(i as int).filter(keep),
        decreases all.len() - i,
    {
        assert(av.take(i + 1).drop_last() =~= av.take(i as int));
        assert(av.take(i + 1).last() == all@[i as int]@);
        reveal_with_fuel(Seq::filter, 1);
        let ghost before = out@;
        if pc.len() == 0 {
            out.push(all[i].clone());
            assert(out@.map_values(|s: String| s@) =~= before.map_values(|s: String| s@).push(all@[i as int]@));
        } else {
            let fc = chars_of(all[i].as_str());
            if starts_with_chars(&fc, &trimmed) {
                out.push(all[i].clone());
                assert(out@.map_values(|s: String| s@) =~= before.map_values(|s: String| s@).push(all@[i as int]@));
            }
        }
        i += 1;
    }
    assert(av.take(all.len() as int) =~= av);
    out
}

/// "File not found: <path>", the answer to reading a missing file.
pub fn file_not_found(path: &str) -> (r: String)
    ensures
        r@ == "File not found: "@ + path@,
{
    let mut e = string_of("File not found: ");
    append(&mut e, path);
    e
}

/// "Not found: <path>", the answer to `stat` on a missing path.
pub fn stat_not_found(path: &str) -> (r: String)
    ensures
        r@ == "Not found: "@ + path@,
{
    let mut e = string_of("Not found: ");
    append(&mut e, path);
    e
}

/// Every name a listing shows begins with the trimmed prefix, and none is
/// left out that does.
pub proof fn lemma_listing_matches_prefix(all: Seq<Seq<char>>, prefix: Seq<char>, f: Seq<char>)
    ensures
        listed(all, prefix).contains(f) <==> (all.contains(f) && starts_with(f, trim_char_end(prefix, '/'))),
{
    let keep = |x: Seq<char>| starts_with(x, trim_char_end(prefix, '/'));
    if prefix.len() == 0 {
        assert(f.subrange(0, 0) =~= trim_char_end(prefix, '/'));
    } else {
        if listed(all, prefix).contains(f) {
            all.lemma_filter_contains_rev(keep, f);
            let i = choose|i: int| 0 <= i < all.filter(keep).len() && all.filter(keep)[i] == f;
            all.lemma_filter_pred(keep, i);
        }
        if all.contains(f) && starts_with(f, trim_char_end(prefix, '/')) {
            let i = choose|i: int| 0 <= i < all.len() && all[i] == f;
            all.lemma_filter_contains(keep, i);
        }
    }
}

} // verus!
