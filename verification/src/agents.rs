//! Chat, embedding and agent calls: what their arguments ask for, the
//! messages sent, and how a platform call's reply is read.

use vstd::prelude::*;
use crate::args::{Arg, arg_nonempty, arg_nonempty_or, arg_str, arg_str_or, get_nonempty, get_nonempty_or, get_str, opt_chars};
use crate::json::{JsonTop, Member, MemberView, json_members, parse_json_members, parsed_view, member_view};
use crate::text::{append, decimal, decimal_string, str_eq, string_of, trim, trim_str};

verus! {

broadcast use vstd::string::group_string_axioms;

// ───────────────────────── platform replies ─────────────────────────

/// The error text of a failed platform call: the API's `error.message`
/// (`api_message`), else the call's own `error` (`call_error`), else
/// `default`.
pub open spec fn error_text(api_message: Option<Seq<char>>, call_error: Option<Seq<char>>, default: Seq<char>) -> Seq<char> {
    match api_message {
        Some(m) => m,
        None => match call_error {
            Some(e) => e,
            None => default,
        },
    }
}

/// The error text of a failed platform call (see `error_text`).
pub fn extract_error(api_message: Option<String>, call_error: Option<String>, default: &str) -> (r: String)
    ensures
        r@ == error_text(opt_chars(api_message), opt_chars(call_error), default@),
{
    match api_message {
        Some(m) => m,
        None => match call_error {
            Some(e) => e,
            None => string_of(default),
        },
    }
}

// ───────────────────────── embeddings ─────────────────────────

/// An embedding request: the text and the model.
pub struct EmbedRequest {
    pub input: String,
    pub model: String,
}

/// Reads `[input, model?]`: fails with "input is required" on a missing or
/// empty input; the model defaults to "text-embedding-3-small".
pub fn parse_embed_request(args: &Vec<Arg>) -> (r: Result<EmbedRequest, String>)
    ensures
        arg_nonempty(args@, 0) is None ==> (r matches Err(e) && e@ == "input is required"@),
        arg_nonempty(args@, 0) matches Some(i) ==> (r matches Ok(q) && q.input@ == i && q.model@
            == arg_nonempty_or(args@, 1, "text-embedding-3-small"@)),
{
    let input = match get_nonempty(args, 0) {
        Some(v) => v,
        None => return Err(string_of("input is required")),
    };
    let model = get_nonempty_or(args, 1, "text-embedding-3-small");
    Ok(EmbedRequest { input, model })
}

// ───────────────────────── chat agents ─────────────────────────

/// A chat request: the prompt, the model, the system preamble ("" for
/// none) and the comma-separated context patterns ("" for none).
pub struct AgentRequest {
    pub prompt: String,
    pub model: String,
    pub preamble: String,
    pub context_csv: String,
}

/// Reads `[prompt, model?, preamble?, context?, temperature?]` (the
/// temperature is read by the caller): fails with "prompt is required" on a
/// missing or empty prompt; the model defaults to `default_model`.
pub fn parse_agent_request(args: &Vec<Arg>, default_model: &str) -> (r: Result<AgentRequest, String>)
    ensures
        arg_nonempty(args@, 0) is None ==> (r matches Err(e) && e@ == "prompt is required"@),
        arg_nonempty(args@, 0) matches Some(p) ==> (r matches Ok(q) && q.prompt@ == p && q.model@
            == arg_nonempty_or(args@, 1, default_model@) && q.preamble@ == arg_nonempty_or(args@, 2, ""@)
            && q.context_csv@ == arg_nonempty_or(args@, 3, ""@)),
{
    let prompt = match get_nonempty(args, 0) {
        Some(v) => v,
        None => return Err(string_of("prompt is required")),
    };
    Ok(AgentRequest {
        prompt,
        model: get_nonempty_or(args, 1, default_model),
        preamble: get_nonempty_or(args, 2, ""),
        context_csv: get_nonempty_or(args, 3, ""),
    })
}

/// Reads an Anthropic chat call `[prompt, model?, preamble?, context?,
/// temperature?]` exactly as `parse_agent_request` does with `default_model`;
/// only when no model is given and the default is empty too does it fail,
/// with "model is required".
pub fn parse_anthropic_request(args: &Vec<Arg>, default_model: &str) -> (r: Result<AgentRequest, String>)
    ensures
        arg_nonempty(args@, 0) is None ==> (r matches Err(e) && e@ == "prompt is required"@),
        arg_nonempty(args@, 0) matches Some(p) ==> (if arg_nonempty_or(args@, 1, default_model@).len() == 0 {
            r matches Err(e) && e@ == "model is required"@
        } else {
            r matches Ok(q) && q.prompt@ == p && q.model@ == arg_nonempty_or(args@, 1, default_model@)
                && q.preamble@ == arg_nonempty_or(args@, 2, ""@) && q.context_csv@ == arg_nonempty_or(args@, 3, ""@)
        }),
{
    match parse_agent_request(args, default_model) {
        Ok(q) => {
            if q.model.as_str().is_empty() {
                Err(string_of("model is required"))
            } else {
                Ok(q)
            }
        },
        Err(e) => Err(e),
    }
}

/// The user message of a single-message chat: the context block, a blank
/// line and the prompt; just the prompt when there is no context.
pub open spec fn user_text(context_block: Seq<char>, prompt: Seq<char>) -> Seq<char> {
    if context_block.len() == 0 {
        prompt
    } else {
        context_block + "\n\n"@ + prompt
    }
}

/// The user message of a single-message chat (see `user_text`).
pub fn compose_user_text(context_block: &str, prompt: &str) -> (r: String)
    ensures
        r@ == user_text(context_block@, prompt@),
{
    if context_block.is_empty() {
        string_of(prompt)
    } else {
        let mut t = string_of(context_block);
        append(&mut t, "\n\n");
        append(&mut t, prompt);
        t
    }
}

/// The messages of a chat with system turns: the preamble (if any), the
/// context block (if any), then the prompt as the user's turn.
pub open spec fn chat_messages(preamble: Seq<char>, context_block: Seq<char>, prompt: Seq<char>) -> Seq<(Seq<char>, Seq<char>)> {
    (if preamble.len() > 0 { seq![("system"@, preamble)] } else { Seq::empty() })
        + (if context_block.len() > 0 { seq![("system"@, context_block)] } else { Seq::empty() })
        + seq![("user"@, prompt)]
}

/// The (role, content) messages of a chat (see `chat_messages`).
pub fn compose_chat_messages(preamble: &str, context_block: &str, prompt: &str) -> (r: Vec<(String, String)>)
    ensures
        r@.map_values(|m: (String, String)| (m.0@, m.1@)) == chat_messages(preamble@, context_block@, prompt@),
{
    let mut out: Vec<(String, String)> = Vec::new();
    if !preamble.is_empty() {
        out.push((string_of("system"), string_of(preamble)));
    }
    if !context_block.is_empty() {
        out.push((string_of("system"), string_of(context_block)));
    }
    out.push((string_of("user"), string_of(prompt)));
    assert(out@.map_values(|m: (String, String)| (m.0@, m.1@)) =~= chat_messages(preamble@, context_block@, prompt@));
    out
}

/// The error when an API key secret is missing: "Missing secret <name>".
pub fn missing_secret(name: &str) -> (r: String)
    ensures
        r@ == "Missing secret "@ + name@,
{
    let mut e = string_of("Missing secret ");
    append(&mut e, name);
    e
}

// ───────────────────────── agent sessions ─────────────────────────

/// The value of member `key`, if the object has it.
pub open spec fn member(ms: Seq<(Seq<char>, MemberView)>, key: Seq<char>) -> Option<MemberView>
    decreases ms.len(),
{
    if ms.len() == 0 {
        None
    } else if ms[0].0 == key {
        Some(ms[0].1)
    } else {
        member(ms.drop_first(), key)
    }
}

/// The text of member `key` when it is a string.
pub open spec fn member_str(ms: Option<Seq<(Seq<char>, MemberView)>>, key: Seq<char>) -> Option<Seq<char>> {
    match ms {
        Some(ms) => match member(ms, key) {
            Some(MemberView::Str(t)) => Some(t),
            _ => None,
        },
        None => None,
    }
}

/// The text of member `key` when it is a string, else `default`.
pub open spec fn member_str_or(ms: Option<Seq<(Seq<char>, MemberView)>>, key: Seq<char>, default: Seq<char>) -> Seq<char> {
    match member_str(ms, key) {
        Some(t) => t,
        None => default,
    }
}

/// The string elements of a list, joined with ','.
pub open spec fn join_strings(items: Seq<Option<Seq<char>>>) -> Seq<char>
    decreases items.len(),
{
    if items.len() == 0 {
        Seq::empty()
    } else {
        let prev = join_strings(items.drop_last());
        match items.last() {
            Some(t) => if prev.len() == 0 && !has_string(items.drop_last()) { t } else { prev + ","@ + t },
            None => prev,
        }
    }
}

/// Some element is a string.
pub open spec fn has_string(items: Seq<Option<Seq<char>>>) -> bool {
    exists|i: int| 0 <= i < items.len() && #[trigger] items[i] is Some
}

/// The tools of an agent query: the string elements of `tools`, joined with
/// ','; "" when `tools` is not a list.
pub open spec fn tools_text(ms: Option<Seq<(Seq<char>, MemberView)>>) -> Seq<char> {
    match ms {
        Some(ms) => match member(ms, "tools"@) {
            Some(MemberView::List(items)) => join_strings(items),
            _ => Seq::empty(),
        },
        None => Seq::empty(),
    }
}

/// What an agent session call asks for.
pub enum SessionRequest {
    /// Start a session with a model.
    Create { model: String },
    /// Ask the running agent.
    Query { session_id: String, message: String, system_prompt: String, tools: String, model: String },
    /// Stop a session.
    Stop { session_id: String },
}

/// What a session call `[config_json]` asks for (see `session_from_ok`).
pub open spec fn session_request_ok(args: Seq<Arg>, r: Result<SessionRequest, String>) -> bool {
    if args.len() == 0 {
        r matches Err(e) && e@ == "config required"@
    } else if arg_str(args, 0) is None {
        r matches Err(e) && e@ == "config must be string"@
    } else {
        session_from_ok(json_members(arg_str(args, 0)->0), r)
    }
}

/// What a session call asks for, given the parsed config: a parse error is
/// reported; the action defaults to "query"; a missing member reads as its
/// default.
pub open spec fn session_from_ok(
    parsed: Result<Option<Seq<(Seq<char>, MemberView)>>, Seq<char>>,
    r: Result<SessionRequest, String>,
) -> bool {
    match parsed {
        Err(msg) => r matches Err(e) && e@ == "JSON parse error: "@ + msg,
        Ok(ms) => {
            let action = member_str_or(ms, "action"@, "query"@);
            let sid = member_str_or(ms, "sessionId"@, ""@);
            if action == "create"@ {
                r matches Ok(SessionRequest::Create { model }) && model@ == member_str_or(ms, "model"@, "gpt-4o-mini"@)
            } else if action == "query"@ {
                if sid.len() == 0 {
                    r matches Err(e) && e@ == "sessionId required"@
                } else {
                    r matches Ok(SessionRequest::Query { session_id, message, system_prompt, tools, model })
                        && session_id@ == sid && message@ == member_str_or(ms, "message"@, "hello"@)
                        && system_prompt@ == member_str_or(ms, "system_prompt"@, "You are helpful"@)
                        && tools@ == tools_text(ms) && model@ == member_str_or(ms, "model"@, "gpt-4o-mini"@)
                }
            } else if action == "stop"@ {
                if sid.len() == 0 {
                    r matches Err(e) && e@ == "sessionId required"@
                } else {
                    r matches Ok(SessionRequest::Stop { session_id }) && session_id@ == sid
                }
            } else {
                r matches Err(e) && e@ == "unknown action: "@ + action
            }
        },
    }
}

fn member_exec<'a>(ms: &'a Vec<(String, Member)>, key: &str) -> (r: Option<&'a Member>)
    ensures
        ({
            let mv = ms@.map_values(|e: (String, Member)| (e.0@, member_view(e.1)));
            match member(mv, key@) {
                Some(v) => r matches Some(m) && member_view(*m) == v,
                None => r is None,
            }
        }),
{
    let ghost mv = ms@.map_values(|e: (String, Member)| (e.0@, member_view(e.1)));
    let mut i: usize = 0;
    assert(mv.skip(0) =~= mv);
    while i < ms.len()
        invariant
            i <= ms.len(),
            mv == ms@.map_values(|e: (String, Member)| (e.0@, member_view(e.1))),
            member(mv.skip(i as int), key@) == member(mv, key@),
        decreases ms.len() - i,
    {
        assert(mv.skip(i as int)[0] == mv[i as int]);
        if str_eq(ms[i].0.as_str(), key) {
            return Some(&ms[i].1);
        }
        assert(mv.skip(i as int).drop_first() =~= mv.skip(i + 1));
        i += 1;
    }
    None
}

fn member_str_or_exec(ms: &Option<Vec<(String, Member)>>, key: &str, default: &str) -> (r: String)
    ensures
        r@ == member_str_or(
            match ms {
                Some(v) => Some(v@.map_values(|e: (String, Member)| (e.0@, member_view(e.1)))),
                None => None,
            },
            key@,
            default@,
        ),
{
    match ms {
        Some(v) => match member_exec(v, key) {
            Some(Member::Str(t)) => t.clone(),
            _ => string_of(default),
        },
        None => string_of(default),
    }
}

fn join_strings_exec(items: &Vec<Option<String>>) -> (r: String)
    ensures
        r@ == join_strings(items@.map_values(|o: Option<String>| opt_chars(o))),
{
    let ghost iv = items@.map_values(|o: Option<String>| opt_chars(o));
    let mut out = String::new();
    let mut any = false;
    let mut i: usize = 0;
    while i < items.len()
        invariant
            i <= items.len(),
            iv == items@.map_values(|o: Option<String>| opt_chars(o)),
            out@ == join_strings(iv.take(i as int)),
            any == has_string(iv.take(i as int)),
        decreases items.len() - i,
    {
        let ghost prefix = iv.take(i as int);
        assert(iv.take(i + 1).drop_last() =~= prefix);
        assert(iv.take(i + 1).last() == iv[i as int]);
        match &items[i] {
            Some(t) => {
                if any {
                    append(&mut out, ",");
                } else {
                    assert(join_strings(prefix).len() == 0) by {
                        lemma_join_empty_without_strings(prefix);
                    }
                }
                append(&mut out, t.as_str());
                any = true;
                assert(has_string(iv.take(i + 1))) by {
                    assert(iv.take(i + 1)[i as int] is Some);
                }
            },
            None => {
                assert(has_string(iv.take(i + 1)) == has_string(prefix)) by {
                    if has_string(iv.take(i + 1)) {
                        let k = choose|k: int| 0 <= k < iv.take(i + 1).len() && #[trigger] iv.take(i + 1)[k] is Some;
                        assert(k < i);
                        assert(prefix[k] is Some);
                    }
                    if has_string(prefix) {
                        let k = choose|k: int| 0 <= k < prefix.len() && #[trigger] prefix[k] is Some;
                        assert(iv.take(i + 1)[k] is Some);
                    }
                }
            },
        }
        proof {
            if has_string(prefix) {
                let k = choose|k: int| 0 <= k < prefix.len() && #[trigger] prefix[k] is Some;
                assert(iv.take(i + 1).drop_last()[k] is Some);
            }
        }
        i += 1;
    }
    assert(iv.take(items.len() as int) =~= iv);
    out
}

proof fn lemma_join_empty_without_strings(items: Seq<Option<Seq<char>>>)
    requires
        !has_string(items),
    ensures
        join_strings(items).len() == 0,
    decreases items.len(),
{
    if items.len() > 0 {
        assert(!has_string(items.drop_last())) by {
            if has_string(items.drop_last()) {
                let k = choose|k: int| 0 <= k < items.drop_last().len() && #[trigger] items.drop_last()[k] is Some;
                assert(items[k] is Some);
            }
        }
        lemma_join_empty_without_strings(items.drop_last());
        assert(items[items.len() - 1] is None);
    }
}

/// Reads an agent session call: `[config_json]` with `action` ("create",
/// "query" (the default) or "stop"), `sessionId`, `message`,
/// `system_prompt`, `tools` and `model`.
pub fn parse_session_request(args: &Vec<Arg>) -> (r: Result<SessionRequest, String>)
    ensures
        session_request_ok(args@, r),
{
    if args.len() == 0 {
        return Err(string_of("config required"));
    }
    let raw = match get_str(args, 0) {
        Some(t) => t,
        None => return Err(string_of("config must be string")),
    };
    session_request_from(parse_json_members(raw.as_str()))
}

/// What a session call asks for, given its parsed config (see
/// `session_from_ok`).
pub fn session_request_from(parsed: Result<JsonTop, String>) -> (r: Result<SessionRequest, String>)
    ensures
        session_from_ok(parsed_view(parsed), r),
{
    let ms: Option<Vec<(String, Member)>> = match parsed {
        Err(msg) => {
            let mut e = string_of("JSON parse error: ");
            append(&mut e, msg.as_str());
            return Err(e);
        },
        Ok(JsonTop::Object(v)) => Some(v),
        Ok(JsonTop::NotObject) => None,
    };
    let action = member_str_or_exec(&ms, "action", "query");
    let sid = member_str_or_exec(&ms, "sessionId", "");
    let a = action.as_str();
    if str_eq(a, "create") {
        Ok(SessionRequest::Create { model: member_str_or_exec(&ms, "model", "gpt-4o-mini") })
    } else if str_eq(a, "query") {
        if sid.as_str().is_empty() {
            return Err(string_of("sessionId required"));
        }
        let tools = match &ms {
            Some(v) => match member_exec(v, "tools") {
                Some(Member::List(items)) => join_strings_exec(items),
                _ => String::new(),
            },
            None => String::new(),
        };
        Ok(SessionRequest::Query {
            session_id: sid,
            message: member_str_or_exec(&ms, "message", "hello"),
            system_prompt: member_str_or_exec(&ms, "system_prompt", "You are helpful"),
            tools,
            model: member_str_or_exec(&ms, "model", "gpt-4o-mini"),
        })
    } else if str_eq(a, "stop") {
        if sid.as_str().is_empty() {
            return Err(string_of("sessionId required"));
        }
        Ok(SessionRequest::Stop { session_id: sid })
    } else {
        let mut e = string_of("unknown action: ");
        append(&mut e, a);
        Err(e)
    }
}

/// A new session's id: "agent_" and the clock's nanoseconds (as 32 bits).
pub fn session_id(nanos: u32) -> (r: String)
    ensures
        r@ == "agent_"@ + decimal(nanos as nat),
{
    let mut t = string_of("agent_");
    append(&mut t, decimal_string(nanos as u64).as_str());
    t
}

/// How an agent's answer is reported.
pub enum AgentAnswer {
    /// The answer's `response` member.
    Response,
    /// The answer's `error` member, as a failure.
    Error,
    /// The whole answer, as the response.
    Whole,
    /// No answer: "llm.agent dispatch failed".
    Failed,
}

/// Which part of the agent's answer is reported: its `response`, else its
/// `error`, else all of it; no answer at all is a failure.
pub fn agent_answer(answered: bool, has_response: bool, has_error: bool) -> (r: AgentAnswer)
    ensures
        !answered ==> r is Failed,
        answered && has_response ==> r is Response,
        answered && !has_response && has_error ==> r is Error,
        answered && !has_response && !has_error ==> r is Whole,
{
    if !answered {
        AgentAnswer::Failed
    } else if has_response {
        AgentAnswer::Response
    } else if has_error {
        AgentAnswer::Error
    } else {
        AgentAnswer::Whole
    }
}

// ───────────────────────── providers ─────────────────────────

/// One chat provider the runtime knows of: its chat model (for anthropic and
/// openrouter, the one the runtime's settings name, if any), its embedding
/// model and the traits that call it (when it is wired up), or a note.
pub struct ProviderInfo {
    pub provider: String,
    pub chat_model: Option<String>,
    pub embedding_model: Option<String>,
    pub traits: Vec<String>,
    pub note: Option<String>,
}

/// The provider, chat model, embedding model, traits and note of an entry.
pub open spec fn provider_view(p: ProviderInfo) -> (Seq<char>, Option<Seq<char>>, Option<Seq<char>>, Seq<Seq<char>>, Option<Seq<char>>) {
    (p.provider@, opt_chars(p.chat_model), opt_chars(p.embedding_model), p.traits@.map_values(|t: String| t@), opt_chars(p.note))
}

/// The note of a provider that is known but not wired up.
pub open spec fn not_shimmed() -> Seq<char> {
    "available in rig-core, not yet shimmed here"@
}

/// The providers, in the order they are listed, with the chat models of
/// anthropic and openrouter as given.
pub open spec fn provider_table(
    anthropic_model: Option<Seq<char>>,
    openrouter_model: Option<Seq<char>>,
) -> Seq<(Seq<char>, Option<Seq<char>>, Option<Seq<char>>, Seq<Seq<char>>, Option<Seq<char>>)> {
    seq![
        ("openai"@, Some("gpt-4o-mini"@), Some("text-embedding-3-small"@), seq!["llm.rig.openai.agent"@, "llm.rig.openai.embed"@], None),
        ("anthropic"@, anthropic_model, None, Seq::empty(), Some(not_shimmed())),
        ("groq"@, Some("llama-3.1-70b-versatile"@), None, Seq::empty(), Some(not_shimmed())),
        ("openrouter"@, openrouter_model, None, Seq::empty(), Some(not_shimmed())),
        ("together"@, Some("meta-llama/Meta-Llama-3.1-70B-Instruct-Turbo"@), None, Seq::empty(), Some(not_shimmed())),
    ]
}

fn pending_provider(provider: &str, chat_model: Option<String>) -> (r: ProviderInfo)
    ensures
        provider_view(r) == (provider@, opt_chars(chat_model), None::<Seq<char>>, Seq::<Seq<char>>::empty(), Some(
            not_shimmed(),
        )),
{
    let traits: Vec<String> = Vec::new();
    let r = ProviderInfo {
        provider: string_of(provider),
        chat_model,
        embedding_model: None,
        traits,
        note: Some(string_of("available in rig-core, not yet shimmed here")),
    };
    assert(r.traits@.map_values(|t: String| t@) =~= Seq::<Seq<char>>::empty());
    r
}

/// The chat providers and what is wired up of each (see `provider_table`).
pub fn providers(anthropic_model: Option<String>, openrouter_model: Option<String>) -> (r: Vec<ProviderInfo>)
    ensures
        r@.map_values(|p: ProviderInfo| provider_view(p)) == provider_table(opt_chars(anthropic_model), opt_chars(
            openrouter_model,
        )),
{
    let mut traits: Vec<String> = Vec::new();
    traits.push(string_of("llm.rig.openai.agent"));
    traits.push(string_of("llm.rig.openai.embed"));
    let openai = ProviderInfo {
        provider: string_of("openai"),
        chat_model: Some(string_of("gpt-4o-mini")),
        embedding_model: Some(string_of("text-embedding-3-small")),
        traits,
        note: None,
    };
    assert(openai.traits@.map_values(|t: String| t@) =~= seq!["llm.rig.openai.agent"@, "llm.rig.openai.embed"@]);
    let mut out: Vec<ProviderInfo> = Vec::new();
    out.push(openai);
    let ghost am = opt_chars(anthropic_model);
    let ghost om = opt_chars(openrouter_model);
    out.push(pending_provider("anthropic", anthropic_model));
    out.push(pending_provider("groq", Some(string_of("llama-3.1-70b-versatile"))));
    out.push(pending_provider("openrouter", openrouter_model));
    out.push(pending_provider("together", Some(string_of("meta-llama/Meta-Llama-3.1-70B-Instruct-Turbo"))));
    assert(out@.map_values(|p: ProviderInfo| provider_view(p)) =~= provider_table(am, om));
    out
}

// ───────────────────────── scripts ─────────────────────────

/// The Lua code of a script call: `[code, input?]`; fails with
/// "code is required" when the code is missing or blank.
pub fn lua_code(args: &Vec<Arg>) -> (r: Result<String, String>)
    ensures
        match arg_str(args@, 0) {
            Some(c) => if trim(c).len() > 0 { r matches Ok(x) && x@ == c } else { r matches Err(e) && e@ == "code is required"@ },
            None => r matches Err(e) && e@ == "code is required"@,
        },
{
    match get_str(args, 0) {
        Some(c) => {
            let t = trim_str(c.as_str());
            if t.as_str().is_empty() {
                Err(string_of("code is required"))
            } else {
                Ok(c)
            }
        },
        None => Err(string_of("code is required")),
    }
}

} // verus!
