//! Positional call arguments, as the trait runtime hands them over.

use vstd::prelude::*;

verus! {

/// One positional argument: a string, a non-negative integer that fits in
/// `u64`, or anything else (null, boolean, other number, array, object).
pub enum Arg {
    Str(String),
    UInt(u64),
    Other,
}

/// The characters of an optional string.
pub open spec fn opt_chars(o: Option<String>) -> Option<Seq<char>> {
    match o {
        Some(s) => Some(s@),
        None => None,
    }
}

/// The `i`-th argument, when it is present and a string.
pub open spec fn arg_str(args: Seq<Arg>, i: int) -> Option<Seq<char>> {
    if 0 <= i < args.len() {
        match args[i] {
            Arg::Str(s) => Some(s@),
            _ => None,
        }
    } else {
        None
    }
}

/// The `i`-th argument, when it is present and a non-negative integer.
pub open spec fn arg_uint(args: Seq<Arg>, i: int) -> Option<u64> {
    if 0 <= i < args.len() {
        match args[i] {
            Arg::UInt(n) => Some(n),
            _ => None,
        }
    } else {
        None
    }
}

/// The `i`-th argument as a string, else `default`.
pub open spec fn arg_str_or(args: Seq<Arg>, i: int, default: Seq<char>) -> Seq<char> {
    match arg_str(args, i) {
        Some(s) => s,
        None => default,
    }
}

/// The `i`-th argument as a non-empty string, else `default`.
pub open spec fn arg_nonempty_or(args: Seq<Arg>, i: int, default: Seq<char>) -> Seq<char> {
    match arg_str(args, i) {
        Some(s) => if s.len() > 0 { s } else { default },
        None => default,
    }
}

/// The `i`-th argument when it is a non-empty string.
pub open spec fn arg_nonempty(args: Seq<Arg>, i: int) -> Option<Seq<char>> {
    match arg_str(args, i) {
        Some(s) => if s.len() > 0 { Some(s) } else { None },
        None => None,
    }
}

/// The `i`-th argument, when it is present and a string.
pub fn get_str(args: &Vec<Arg>, i: usize) -> (r: Option<String>)
    ensures
        opt_chars(r) == arg_str(args@, i as int),
{
    if i < args.len() {
        match &args[i] {
            Arg::Str(s) => Some(s.clone()),
            _ => None,
        }
    } else {
        None
    }
}

/// The `i`-th argument, when it is present and a non-negative integer.
pub fn get_uint(args: &Vec<Arg>, i: usize) -> (r: Option<u64>)
    ensures
        r == arg_uint(args@, i as int),
{
    if i < args.len() {
        match &args[i] {
            Arg::UInt(n) => Some(*n),
            _ => None,
        }
    } else {
        None
    }
}

/// The `i`-th argument as a string, else `default`.
pub fn get_str_or(args: &Vec<Arg>, i: usize, default: &str) -> (r: String)
    ensures
        r@ == arg_str_or(args@, i as int, default@),
{
    match get_str(args, i) {
        Some(s) => s,
        None => String::from_str(default),
    }
}

/// The `i`-th argument as a non-empty string, else `default`.
pub fn get_nonempty_or(args: &Vec<Arg>, i: usize, default: &str) -> (r: String)
    ensures
        r@ == arg_nonempty_or(args@, i as int, default@),
{
    match get_str(args, i) {
        Some(s) => {
            if s.as_str().is_empty() {
                String::from_str(default)
            } else {
                s
            }
        },
        None => String::from_str(default),
    }
}

/// The `i`-th argument when it is a non-empty string.
pub fn get_nonempty(args: &Vec<Arg>, i: usize) -> (r: Option<String>)
    ensures
        opt_chars(r) == arg_nonempty(args@, i as int),
{
    match get_str(args, i) {
        Some(s) => {
            if s.as_str().is_empty() {
                None
            } else {
                Some(s)
            }
        },
        None => None,
    }
}

} // verus!
