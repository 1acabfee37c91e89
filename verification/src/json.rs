//! JSON documents as plain values: reading one (through serde_json) and
//! writing one (as serde_json writes it: compact, strings escaped).

use vstd::prelude::*;
use serde_json::Value;
use crate::args::opt_chars;
use crate::keyorder::{entries_view, sorted_keys};
use crate::text::{append, push_char};

verus! {

broadcast use vstd::string::group_string_axioms;

// ───────────────────────── reading ─────────────────────────

/// A JSON value one level down: null, a string, or any other value as its
/// compact JSON text.
pub enum JsonPart {
    Null,
    Str(String),
    Other(String),
}

/// The plain value of a `JsonPart`.
pub enum JsonPartV {
    Null,
    Str(Seq<char>),
    Other(Seq<char>),
}

impl View for JsonPart {
    type V = JsonPartV;

    open spec fn view(&self) -> JsonPartV {
        match self {
            JsonPart::Null => JsonPartV::Null,
            JsonPart::Str(s) => JsonPartV::Str(s@),
            JsonPart::Other(t) => JsonPartV::Other(t@),
        }
    }
}

/// A parsed document: an object's members in key order, an array's
/// elements, or a single other value.
pub enum JsonDoc {
    Object(Vec<(String, JsonPart)>),
    Array(Vec<JsonPart>),
    Scalar(JsonPart),
}

/// The plain value of a `JsonDoc`.
pub enum JsonDocV {
    Object(Seq<(Seq<char>, JsonPartV)>),
    Array(Seq<JsonPartV>),
    Scalar(JsonPartV),
}

impl View for JsonDoc {
    type V = JsonDocV;

    open spec fn view(&self) -> JsonDocV {
        match self {
            JsonDoc::Object(ms) => JsonDocV::Object(entries_view(ms@)),
            JsonDoc::Array(a) => JsonDocV::Array(a@.map_values(|p: JsonPart| p@)),
            JsonDoc::Scalar(p) => JsonDocV::Scalar(p@),
        }
    }
}

/// The plain value of a parse outcome.
pub open spec fn doc_result_view(r: Result<JsonDoc, String>) -> Result<JsonDocV, Seq<char>> {
    match r {
        Ok(d) => Ok(d@),
        Err(e) => Err(e@),
    }
}

/// What `serde_json::from_str::<Value>` makes of `raw`: the document one
/// level down (members of an object in the map's key order, a repeated key
/// keeping its last value), or the parse error's message.
pub uninterp spec fn json_document(raw: Seq<char>) -> Result<JsonDocV, Seq<char>>;

/// Calls `serde_json::from_str::<serde_json::Value>` and hands out the
/// document one level down: an object's members, an array's elements or a
/// single value, each as null, a string, or another value's compact JSON text
/// (its `Display`). Claimed: the outcome is the named `json_document(raw)`, a
/// function of the text alone, and an object's keys come in increasing order,
/// each once (serde_json's `Map` is a `BTreeMap`, `preserve_order` being
/// off). Nothing is claimed about which texts parse.
#[verifier::external_body]
pub(crate) fn parse_json_document(raw: &str) -> (r: Result<JsonDoc, String>)
    ensures
        doc_result_view(r) == json_document(raw@),
        r matches Ok(JsonDoc::Object(ms)) ==> sorted_keys(entries_view(ms@)),
{
    let part = |v: Value| match v {
        Value::Null => JsonPart::Null,
        Value::String(s) => JsonPart::Str(s),
        other => JsonPart::Other(other.to_string()),
    };
    match serde_json::from_str::<Value>(raw) {
        Ok(Value::Object(m)) => Ok(JsonDoc::Object(m.into_iter().map(|(k, v)| (k, part(v))).collect())),
        Ok(Value::Array(a)) => Ok(JsonDoc::Array(a.into_iter().map(part).collect())),
        Ok(v) => Ok(JsonDoc::Scalar(part(v))),
        Err(e) => Err(e.to_string()),
    }
}

/// A stored document: missing, not JSON, or parsed.
pub enum Stored {
    Missing,
    Invalid,
    Doc(JsonDoc),
}

/// The plain value of a `Stored`.
pub enum StoredV {
    Missing,
    Invalid,
    Doc(JsonDocV),
}

/// What a stored text (if any) holds.
pub open spec fn stored_doc(stored: Option<Seq<char>>) -> StoredV {
    match stored {
        None => StoredV::Missing,
        Some(t) => match json_document(t) {
            Ok(d) => StoredV::Doc(d),
            Err(_) => StoredV::Invalid,
        },
    }
}

/// The plain value of a `Stored`.
pub open spec fn stored_view(s: Stored) -> StoredV {
    match s {
        Stored::Missing => StoredV::Missing,
        Stored::Invalid => StoredV::Invalid,
        Stored::Doc(d) => StoredV::Doc(d@),
    }
}

/// Reads a stored text (see `stored_doc`).
pub fn read_stored(stored: Option<String>) -> (r: Stored)
    ensures
        stored_view(r) == stored_doc(opt_chars(stored)),
        r matches Stored::Doc(JsonDoc::Object(ms)) ==> sorted_keys(entries_view(ms@)),
{
    match stored {
        None => Stored::Missing,
        Some(t) => match parse_json_document(t.as_str()) {
            Ok(d) => Stored::Doc(d),
            Err(_) => Stored::Invalid,
        },
    }
}

/// A string part's text.
pub open spec fn part_str(p: JsonPartV) -> Option<Seq<char>> {
    match p {
        JsonPartV::Str(s) => Some(s),
        _ => None,
    }
}

// ───────────────────────── members ─────────────────────────

/// A member value, as far as the request logic reads it: a string, an array
/// (each element a string or not), or anything else.
pub enum Member {
    Str(String),
    List(Vec<Option<String>>),
    Other,
}

/// A parsed document: an object's members in key order, or something that is
/// not an object.
pub enum JsonTop {
    Object(Vec<(String, Member)>),
    NotObject,
}

/// The plain value of a member.
pub enum MemberView {
    Str(Seq<char>),
    List(Seq<Option<Seq<char>>>),
    Other,
}

/// The plain value of a member.
pub open spec fn member_view(m: Member) -> MemberView {
    match m {
        Member::Str(s) => MemberView::Str(s@),
        Member::List(v) => MemberView::List(v@.map_values(|o: Option<String>| opt_chars(o))),
        Member::Other => MemberView::Other,
    }
}

/// The members of an object as (key, value) views; `None` for a non-object.
pub open spec fn top_view(t: JsonTop) -> Option<Seq<(Seq<char>, MemberView)>> {
    match t {
        JsonTop::Object(ms) => Some(ms@.map_values(|e: (String, Member)| (e.0@, member_view(e.1)))),
        JsonTop::NotObject => None,
    }
}

/// The plain value of a parse outcome.
pub open spec fn parsed_view(r: Result<JsonTop, String>) -> Result<Option<Seq<(Seq<char>, MemberView)>>, Seq<char>> {
    match r {
        Ok(t) => Ok(top_view(t)),
        Err(e) => Err(e@),
    }
}

/// A member as the request logic reads it: a string, an array of elements
/// (strings or not), or other.
pub open spec fn member_of_part(p: JsonPartV) -> MemberView {
    match p {
        JsonPartV::Str(s) => MemberView::Str(s),
        JsonPartV::Other(t) => match json_document(t) {
            Ok(JsonDocV::Array(items)) => MemberView::List(items.map_values(|x: JsonPartV| part_str(x))),
            _ => MemberView::Other,
        },
        JsonPartV::Null => MemberView::Other,
    }
}

/// The top-level members of a JSON text: `None` for a non-object, or the
/// parse error's message.
pub open spec fn json_members(raw: Seq<char>) -> Result<Option<Seq<(Seq<char>, MemberView)>>, Seq<char>> {
    match json_document(raw) {
        Err(m) => Err(m),
        Ok(JsonDocV::Object(ms)) => Ok(Some(ms.map_values(|e: (Seq<char>, JsonPartV)| (e.0, member_of_part(e.1))))),
        Ok(_) => Ok(None),
    }
}

fn member_of(p: &JsonPart) -> (r: Member)
    ensures
        member_view(r) == member_of_part(p@),
{
    match p {
        JsonPart::Str(s) => Member::Str(s.clone()),
        JsonPart::Null => Member::Other,
        JsonPart::Other(t) => match parse_json_document(t.as_str()) {
            Ok(JsonDoc::Array(items)) => {
                let ghost iv = items@.map_values(|x: JsonPart| x@);
                let mut out: Vec<Option<String>> = Vec::new();
                let mut i: usize = 0;
                while i < items.len()
                    invariant
                        i <= items.len(),
                        iv == items@.map_values(|x: JsonPart| x@),
                        out@.map_values(|o: Option<String>| opt_chars(o)) == iv.take(i as int).map_values(
                            |x: JsonPartV| part_str(x),
                        ),
                    decreases items.len() - i,
                {
                    let o = match &items[i] {
                        JsonPart::Str(s) => Some(s.clone()),
                        _ => None,
                    };
                    assert(iv[i as int] == items@[i as int]@);
                    assert(opt_chars(o) == part_str(iv[i as int]));
                    let ghost before = out@;
                    out.push(o);
                    assert(out@.map_values(|o: Option<String>| opt_chars(o)) =~= before.map_values(
                        |o: Option<String>| opt_chars(o),
                    ).push(part_str(iv[i as int])));
                    assert(out@.map_values(|o: Option<String>| opt_chars(o)) =~= iv.take(i + 1).map_values(
                        |x: JsonPartV| part_str(x),
                    ));
                    i += 1;
                }
                assert(iv.take(items.len() as int) =~= iv);
                Member::List(out)
            },
            _ => Member::Other,
        },
    }
}

/// The top-level members of a JSON text (see `json_members`).
pub fn parse_json_members(raw: &str) -> (r: Result<JsonTop, String>)
    ensures
        parsed_view(r) == json_members(raw@),
{
    match parse_json_document(raw) {
        Err(e) => Err(e),
        Ok(JsonDoc::Object(ms)) => {
            let ghost mv = entries_view(ms@);
            let mut out: Vec<(String, Member)> = Vec::new();
            let mut i: usize = 0;
            while i < ms.len()
                invariant
                    i <= ms.len(),
                    mv == entries_view(ms@),
                    out@.map_values(|e: (String, Member)| (e.0@, member_view(e.1))) == mv.take(i as int).map_values(
                        |e: (Seq<char>, JsonPartV)| (e.0, member_of_part(e.1)),
                    ),
                decreases ms.len() - i,
            {
                let m = member_of(&ms[i].1);
                assert(mv[i as int] == (ms@[i as int].0@, ms@[i as int].1@));
                let ghost before = out@;
                let k = ms[i].0.clone();
                out.push((k, m));
                assert(out@.map_values(|e: (String, Member)| (e.0@, member_view(e.1))) =~= before.map_values(
                    |e: (String, Member)| (e.0@, member_view(e.1)),
                ).push((mv[i as int].0, member_of_part(mv[i as int].1))));
                assert(out@.map_values(|e: (String, Member)| (e.0@, member_view(e.1))) =~= mv.take(i + 1).map_values(
                    |e: (Seq<char>, JsonPartV)| (e.0, member_of_part(e.1)),
                ));
                i += 1;
            }
            assert(mv.take(ms.len() as int) =~= mv);
            Ok(JsonTop::Object(out))
        },
        Ok(_) => Ok(JsonTop::NotObject),
    }
}

// ───────────────────────── writing ─────────────────────────

/// The lowercase hex digit of `d < 16`.
pub open spec fn hex_char(d: nat) -> char {
    crate::clock::hex_digit(d)
}

/// How serde_json writes one character inside a string literal.
pub open spec fn escape_char(c: char) -> Seq<char> {
    if c == '"' {
        seq!['\\', '"']
    } else if c == '\\' {
        seq!['\\', '\\']
    } else if c == '\n' {
        seq!['\\', 'n']
    } else if c == '\r' {
        seq!['\\', 'r']
    } else if c == '\t' {
        seq!['\\', 't']
    } else if c == '\x08' {
        seq!['\\', 'b']
    } else if c == '\x0C' {
        seq!['\\', 'f']
    } else if (c as u32) < 0x20 {
        seq!['\\', 'u', '0', '0', hex_char((c as u32 / 16) as nat), hex_char((c as u32 % 16) as nat)]
    } else {
        seq![c]
    }
}

/// The escaped characters of the first `n` characters of `s`.
pub open spec fn escaped(s: Seq<char>, n: nat) -> Seq<char>
    decreases n,
{
    if n == 0 || n > s.len() {
        Seq::empty()
    } else {
        escaped(s, (n - 1) as nat) + escape_char(s[n - 1])
    }
}

/// A string as a JSON string literal.
pub open spec fn quoted(s: Seq<char>) -> Seq<char> {
    seq!['"'] + escaped(s, s.len()) + seq!['"']
}

/// The first `n` members `"key":value`, separated by ','.
pub open spec fn members_text(es: Seq<(Seq<char>, Seq<char>)>, n: nat) -> Seq<char>
    decreases n,
{
    if n == 0 || n > es.len() {
        Seq::empty()
    } else if n == 1 {
        quoted(es[0].0) + seq![':'] + es[0].1
    } else {
        members_text(es, (n - 1) as nat) + seq![','] + quoted(es[n - 1].0) + seq![':'] + es[n - 1].1
    }
}

/// A JSON object with these members (key, value text), in this order.
pub open spec fn object_text(es: Seq<(Seq<char>, Seq<char>)>) -> Seq<char> {
    seq!['{'] + members_text(es, es.len()) + seq!['}']
}

/// The first `n` element texts, separated by ','.
pub open spec fn elements_text(items: Seq<Seq<char>>, n: nat) -> Seq<char>
    decreases n,
{
    if n == 0 || n > items.len() {
        Seq::empty()
    } else if n == 1 {
        items[0]
    } else {
        elements_text(items, (n - 1) as nat) + seq![','] + items[n - 1]
    }
}

/// A JSON array with these element texts.
pub open spec fn array_text(items: Seq<Seq<char>>) -> Seq<char> {
    seq!['['] + elements_text(items, items.len()) + seq![']']
}

fn push_escaped(out: &mut String, c: char)
    ensures
        final(out)@ == old(out)@ + escape_char(c),
{
    if c == '"' {
        push_char(out, '\\');
        push_char(out, '"');
    } else if c == '\\' {
        push_char(out, '\\');
        push_char(out, '\\');
    } else if c == '\n' {
        push_char(out, '\\');
        push_char(out, 'n');
    } else if c == '\r' {
        push_char(out, '\\');
        push_char(out, 'r');
    } else if c == '\t' {
        push_char(out, '\\');
        push_char(out, 't');
    } else if c == '\x08' {
        push_char(out, '\\');
        push_char(out, 'b');
    } else if c == '\x0C' {
        push_char(out, '\\');
        push_char(out, 'f');
    } else if (c as u32) < 0x20 {
        push_char(out, '\\');
        push_char(out, 'u');
        push_char(out, '0');
        push_char(out, '0');
        push_char(out, crate::clock::hex_digit_of((c as u32 / 16) as u64));
        push_char(out, crate::clock::hex_digit_of((c as u32 % 16) as u64));
    } else {
        push_char(out, c);
    }
    assert(final(out)@ =~= old(out)@ + escape_char(c));
}

/// Appends `s` as a JSON string literal.
pub fn push_quoted(out: &mut String, s: &str)
    ensures
        final(out)@ == old(out)@ + quoted(s@),
{
    let cs = crate::text::chars_of(s);
    let ghost start = out@;
    push_char(out, '"');
    let mut i: usize = 0;
    while i < cs.len()
        invariant
            i <= cs.len(),
            cs@ == s@,
            out@ == start + seq!['"'] + escaped(s@, i as nat),
        decreases cs.len() - i,
    {
        push_escaped(out, cs[i]);
        assert(out@ =~= start + seq!['"'] + escaped(s@, (i + 1) as nat));
        i += 1;
    }
    push_char(out, '"');
    assert(out@ =~= start + quoted(s@));
}

/// A JSON object with these members (key, value text), in this order.
pub fn write_object(es: &Vec<(String, String)>) -> (r: String)
    ensures
        r@ == object_text(entries_view(es@)),
{
    let ghost ev = entries_view(es@);
    let mut out = String::new();
    push_char(&mut out, '{');
    let mut i: usize = 0;
    while i < es.len()
        invariant
            i <= es.len(),
            ev == entries_view(es@),
            out@ == seq!['{'] + members_text(ev, i as nat),
        decreases es.len() - i,
    {
        if i > 0 {
            push_char(&mut out, ',');
        }
        push_quoted(&mut out, es[i].0.as_str());
        push_char(&mut out, ':');
        append(&mut out, es[i].1.as_str());
        assert(out@ =~= seq!['{'] + members_text(ev, (i + 1) as nat));
        i += 1;
    }
    push_char(&mut out, '}');
    assert(out@ =~= object_text(ev));
    out
}

/// A JSON array with these element texts.
pub fn write_array(items: &Vec<String>) -> (r: String)
    ensures
        r@ == array_text(items@.map_values(|t: String| t@)),
{
    let ghost iv = items@.map_values(|t: String| t@);
    let mut out = String::new();
    push_char(&mut out, '[');
    let mut i: usize = 0;
    while i < items.len()
        invariant
            i <= items.len(),
            iv == items@.map_values(|t: String| t@),
            out@ == seq!['['] + elements_text(iv, i as nat),
        decreases items.len() - i,
    {
        if i > 0 {
            push_char(&mut out, ',');
        }
        append(&mut out, items[i].as_str());
        assert(out@ =~= seq!['['] + elements_text(iv, (i + 1) as nat));
        i += 1;
    }
    push_char(&mut out, ']');
    assert(out@ =~= array_text(iv));
    out
}

/// The text of a part: `null`, a string literal, or the value's text.
pub open spec fn part_text(p: JsonPartV) -> Seq<char> {
    match p {
        JsonPartV::Null => seq!['n', 'u', 'l', 'l'],
        JsonPartV::Str(s) => quoted(s),
        JsonPartV::Other(t) => t,
    }
}

/// The text of a part (see `part_text`).
pub fn write_part(p: &JsonPart) -> (r: String)
    ensures
        r@ == part_text(p@),
{
    match p {
        JsonPart::Null => {
            let mut s = String::new();
            push_char(&mut s, 'n');
            push_char(&mut s, 'u');
            push_char(&mut s, 'l');
            push_char(&mut s, 'l');
            s
        },
        JsonPart::Str(t) => {
            let mut s = String::new();
            push_quoted(&mut s, t.as_str());
            s
        },
        JsonPart::Other(t) => t.clone(),
    }
}

} // verus!
