use traits::agents::{
    agent_answer, compose_chat_messages, compose_user_text, extract_error, lua_code, missing_secret,
    parse_agent_request, parse_anthropic_request, parse_embed_request, parse_session_request, providers, session_id,
    session_request_from, AgentAnswer, SessionRequest,
};
use traits::json::{JsonTop, Member};
use traits::args::Arg;
use traits::context::{context_patterns, format_context_block, select_context_docs};
use traits::image::{
    enhance_prompt, generated_image_path, image_outcome, normalize_size, plan_image,
    sheet_usage_hint, ImageOutcome, ImagePlan,
};

fn s(t: &str) -> Arg {
    Arg::Str(t.to_string())
}

fn strings(v: &[&str]) -> Vec<String> {
    v.iter().map(|x| x.to_string()).collect()
}

fn expected_sheet_hint(path: &str) -> String {
    format!(
        "This is a 2x2 character sheet. Slice it in your game JS:\n\
         ```\n\
         const resp = await traits.call('sys.vfs', ['read', '{}']);\n\
         const sheet = new Image();\n\
         sheet.src = resp.content;\n\
         sheet.onload = () => {{\n\
         const W = sheet.width / 2, H = sheet.height / 2;\n\
         ['front','back','left','right'].forEach((dir, i) => {{\n\
           const c = document.createElement('canvas');\n\
           c.width = W; c.height = H;\n\
           const x = (i % 2) * W, y = Math.floor(i / 2) * H;\n\
           c.getContext('2d').drawImage(sheet, x, y, W, H, 0, 0, W, H);\n\
           sprites[dir] = c;  // use as drawImage source\n\
         }});\n\
         }};\n\
         ```",
        path
    )
}

#[test]
fn enhance_prompt_per_mode() {
    assert_eq!(
        enhance_prompt("a knight", "sheet"),
        "Character reference sheet, 2x2 grid layout on a plain white background. \
         Each cell shows the same character in a different pose: front view, back view, \
         left side view, right side view. Consistent proportions, colors, and details \
         across all four cells. Clean separation between cells with thin dividing lines. \
         Character: a knight. \
         Style: clean digital illustration, flat colors, sharp outlines, \
         full body visible in each cell, centered in frame, game sprite art."
    );
    assert_eq!(
        enhance_prompt("sword", "icon"),
        "Game UI icon, flat design, centered subject, no background, \
         clean vector style, bold outlines, vibrant colors, \
         simple and instantly recognizable at small sizes. Subject: sword."
    );
    assert_eq!(
        enhance_prompt("a forest", "bg"),
        "Game background scene, wide landscape composition, atmospheric perspective, \
         no characters or UI elements, seamless horizontal scrolling friendly, \
         rich detail, painted style. Scene: a forest."
    );
    assert_eq!(
        enhance_prompt("grass", "tile"),
        "Seamless tileable texture pattern, top-down view, \
         edges wrap perfectly for tiling in all directions, \
         consistent lighting with no directional shadows, game terrain style. \
         Texture: grass."
    );
}

#[test]
fn enhance_prompt_sprite_adds_what_is_missing() {
    assert_eq!(
        enhance_prompt("a knight", "sprite"),
        "Pixel art game sprite, clean sharp pixels, limited color palette. a knight. \
         on a transparent background for easy extraction. centered in frame, full subject visible"
    );
    assert_eq!(
        enhance_prompt("Pixel Art dragon on transparent background", "sprite"),
        "Pixel Art dragon on transparent background. centered in frame, full subject visible"
    );
    assert_eq!(
        enhance_prompt("a VECTOR cat", "whatever"),
        "a VECTOR cat. on a transparent background for easy extraction. centered in frame, full subject visible"
    );
    assert_eq!(
        enhance_prompt("a cat, no bg", "sprite"),
        "Pixel art game sprite, clean sharp pixels, limited color palette. a cat, no bg. \
         centered in frame, full subject visible"
    );
}

#[test]
fn every_prompt_keeps_the_description() {
    for mode in ["sheet", "icon", "bg", "tile", "sprite", "other"] {
        let e = enhance_prompt("a red fox", mode);
        assert!(e.contains("a red fox"));
    }
}

#[test]
fn sheet_hint_names_the_path() {
    assert_eq!(sheet_usage_hint("sheets/hero.png"), expected_sheet_hint("sheets/hero.png"));
}

#[test]
fn normalize_size_per_model() {
    assert_eq!(normalize_size("512x512", "dall-e-2"), "512x512");
    assert_eq!(normalize_size("300x200", "dall-e-2"), "512x512");
    assert_eq!(normalize_size("2000x10", "dall-e-2"), "1024x1024");
    assert_eq!(normalize_size("100x100", "dall-e-2"), "256x256");
    assert_eq!(normalize_size("abc", "dall-e-2"), "256x256");
    assert_eq!(normalize_size("+300x1", "dall-e-2"), "512x512");
    assert_eq!(normalize_size("256x256", "dall-e-3"), "1024x1024");
    assert_eq!(normalize_size("auto", "gpt-image-1"), "auto");
    assert_eq!(normalize_size("512x512", "gpt-image-1"), "1024x1024");
}

#[test]
fn dalle2_sizes_are_always_supported() {
    for req in ["", "x", "1x1", "257x1", "99999x3", "512", "1024x1024", "x513"] {
        let got = normalize_size(req, "dall-e-2");
        assert!(got == "256x256" || got == "512x512" || got == "1024x1024");
    }
}

#[test]
fn generated_paths() {
    assert_eq!(generated_image_path("A brave Knight!", "sprite"), "sprites/a_brave_knight.png");
    assert_eq!(generated_image_path("!!!", "icon"), "icons/generated.png");
    assert_eq!(generated_image_path("  hero  ", "sheet"), "sheets/hero.png");
    assert_eq!(generated_image_path("sky", "bg"), "backgrounds/sky.png");
    assert_eq!(generated_image_path("rock", "tile"), "tiles/rock.png");
    assert_eq!(
        generated_image_path("abcdefghij klmnopqrst uvwxyzABCD EFG", "sprite"),
        "sprites/abcdefghij_klmnopqrst_uvwxyzab.png"
    );
}

#[test]
fn plan_image_defaults() {
    let p = plan_image(&vec![s("a cat")]).ok().unwrap();
    assert_eq!(p.model, "dall-e-2");
    assert_eq!(p.mode, "sprite");
    assert_eq!(p.size, "256x256");
    assert_eq!(p.path, "sprites/a_cat.png");
    assert_eq!(p.prompt, enhance_prompt("a cat", "sprite"));
    assert!(p.b64_json);
}

#[test]
fn plan_image_with_arguments() {
    let p = plan_image(&vec![s("tree"), s(""), s(""), s("gpt-image-1"), s("tile")]).ok().unwrap();
    assert_eq!(p.model, "gpt-image-1");
    assert_eq!(p.mode, "tile");
    assert_eq!(p.size, "1024x1024");
    assert_eq!(p.path, "tiles/tree.png");
    assert!(!p.b64_json);
    let q = plan_image(&vec![s("hero"), s("art/hero.png"), s("600x600"), Arg::Other, s("sheet")]).ok().unwrap();
    assert_eq!(q.model, "dall-e-2");
    assert_eq!(q.size, "1024x1024");
    assert_eq!(q.path, "art/hero.png");
}

#[test]
fn plan_image_needs_a_prompt() {
    for args in [vec![], vec![s("")], vec![Arg::UInt(5)], vec![Arg::Other, s("x")]] {
        match plan_image(&args) {
            Err(e) => assert_eq!(e, "prompt is required"),
            Ok(_) => panic!("expected an error"),
        }
    }
}

fn sheet_plan() -> ImagePlan {
    plan_image(&vec![s("hero"), s(""), s(""), s(""), s("sheet")]).ok().unwrap()
}

#[test]
fn image_outcome_failures() {
    let p = sheet_plan();
    match image_outcome(&p, false, Some("bad key".to_string()), Some("QUJD".to_string()), None) {
        ImageOutcome::Failed { error } => assert_eq!(error, "bad key"),
        _ => panic!("expected a failure"),
    }
    match image_outcome(&p, false, None, None, None) {
        ImageOutcome::Failed { error } => assert_eq!(error, "OpenAI image API call failed"),
        _ => panic!("expected a failure"),
    }
    match image_outcome(&p, true, None, Some(String::new()), Some(String::new())) {
        ImageOutcome::Failed { error } => assert_eq!(error, "No image data in API response"),
        _ => panic!("expected a failure"),
    }
}

#[test]
fn image_outcome_prefers_base64() {
    let p = sheet_plan();
    assert_eq!(p.path, "sheets/hero.png");
    match image_outcome(&p, true, None, Some("QUJD".to_string()), Some("http://x/y.png".to_string())) {
        ImageOutcome::DataUrl { path, data_url, data_url_length, usage_hint } => {
            assert_eq!(path, "sheets/hero.png");
            assert_eq!(data_url, "data:image/png;base64,QUJD");
            assert_eq!(data_url_length, 26);
            assert_eq!(usage_hint, Some(expected_sheet_hint("sheets/hero.png")));
        },
        _ => panic!("expected base64 data"),
    }
    let sprite = plan_image(&vec![s("cat")]).ok().unwrap();
    match image_outcome(&sprite, true, None, Some(String::new()), Some("http://x/y.png".to_string())) {
        ImageOutcome::Url { path, url, usage_hint } => {
            assert_eq!(path, "sprites/cat.png");
            assert_eq!(url, "http://x/y.png");
            assert_eq!(usage_hint, None);
        },
        _ => panic!("expected a url"),
    }
}

#[test]
fn context_patterns_are_trimmed_and_nonempty() {
    assert_eq!(context_patterns(" a.md , ,docs/*.md,"), strings(&["a.md", "docs/*.md"]));
    assert_eq!(context_patterns(""), Vec::<String>::new());
    assert_eq!(context_patterns(" , "), Vec::<String>::new());
}

#[test]
fn context_block_frames_documents() {
    assert_eq!(format_context_block(&[]), "");
    assert_eq!(
        format_context_block(&strings(&["x", "y"])),
        "<context>\n<doc index=\"0\">\nx\n</doc>\n<doc index=\"1\">\ny\n</doc>\n</context>"
    );
}

#[test]
fn context_documents_by_name_and_glob() {
    let patterns = strings(&["readme.md", "docs/*.md"]);
    let direct = vec![Some("R".to_string()), None];
    let paths = strings(&["docs/a.md", "docs/b.txt", "docs/c.md", "readme.md"]);
    let reads = vec![Some("A".to_string()), Some("B".to_string()), None, Some("R".to_string())];
    assert_eq!(select_context_docs(&patterns, &direct, &paths, &reads), strings(&["R", "A"]));
}

#[test]
fn context_documents_are_taken_once() {
    let patterns = strings(&["docs/*.md", "docs/a.md", "*"]);
    let direct = vec![None, Some("A".to_string()), None];
    let paths = strings(&["docs/a.md", "z.txt"]);
    let reads = vec![Some("A".to_string()), Some("Z".to_string())];
    assert_eq!(select_context_docs(&patterns, &direct, &paths, &reads), strings(&["A", "Z"]));
}

#[test]
fn error_text_prefers_the_api_message() {
    assert_eq!(extract_error(Some("m".into()), Some("e".into()), "d"), "m");
    assert_eq!(extract_error(None, Some("e".into()), "d"), "e");
    assert_eq!(extract_error(None, None, "d"), "d");
}

#[test]
fn embed_request() {
    let r = parse_embed_request(&vec![s("hello")]).ok().unwrap();
    assert_eq!(r.input, "hello");
    assert_eq!(r.model, "text-embedding-3-small");
    let r2 = parse_embed_request(&vec![s("hi"), s("m2")]).ok().unwrap();
    assert_eq!(r2.model, "m2");
    match parse_embed_request(&vec![s("")]) {
        Err(e) => assert_eq!(e, "input is required"),
        Ok(_) => panic!("expected an error"),
    }
}

#[test]
fn agent_request() {
    let r = parse_agent_request(&vec![s("hi")], "default-model").ok().unwrap();
    assert_eq!(r.prompt, "hi");
    assert_eq!(r.model, "default-model");
    assert_eq!(r.preamble, "");
    assert_eq!(r.context_csv, "");
    let r2 = parse_agent_request(&vec![s("hi"), s(""), s("be brief"), s("docs/*.md")], "llama").ok().unwrap();
    assert_eq!(r2.model, "llama");
    assert_eq!(r2.preamble, "be brief");
    assert_eq!(r2.context_csv, "docs/*.md");
    match parse_agent_request(&vec![Arg::Other], "m") {
        Err(e) => assert_eq!(e, "prompt is required"),
        Ok(_) => panic!("expected an error"),
    }
}

#[test]
fn chat_messages_and_user_text() {
    assert_eq!(compose_user_text("", "p"), "p");
    assert_eq!(compose_user_text("<context>\n</context>", "p"), "<context>\n</context>\n\np");
    let pair = |a: &str, b: &str| (a.to_string(), b.to_string());
    assert_eq!(compose_chat_messages("sys", "", "q"), vec![pair("system", "sys"), pair("user", "q")]);
    assert_eq!(compose_chat_messages("", "ctx", "q"), vec![pair("system", "ctx"), pair("user", "q")]);
    assert_eq!(
        compose_chat_messages("sys", "ctx", "q"),
        vec![pair("system", "sys"), pair("system", "ctx"), pair("user", "q")]
    );
    assert_eq!(missing_secret("anthropic_api_key"), "Missing secret anthropic_api_key");
}

fn session_err(args: Vec<Arg>) -> String {
    match parse_session_request(&args) {
        Err(e) => e,
        Ok(_) => panic!("expected an error"),
    }
}

#[test]
fn session_request_errors() {
    assert_eq!(session_err(vec![]), "config required");
    assert_eq!(session_err(vec![Arg::UInt(1)]), "config must be string");
    let parse_error = serde_json::from_str::<serde_json::Value>("{bad").unwrap_err();
    assert_eq!(session_err(vec![s("{bad")]), format!("JSON parse error: {}", parse_error));
    assert_eq!(session_err(vec![s(r#"{"action":"query"}"#)]), "sessionId required");
    assert_eq!(session_err(vec![s(r#"{"action":"stop"}"#)]), "sessionId required");
    assert_eq!(session_err(vec![s("[1]")]), "sessionId required");
    assert_eq!(session_err(vec![s(r#"{"action":"jump"}"#)]), "unknown action: jump");
}

#[test]
fn session_requests() {
    match parse_session_request(&vec![s(r#"{"action":"create"}"#)]) {
        Ok(SessionRequest::Create { model }) => assert_eq!(model, "gpt-4o-mini"),
        _ => panic!("expected create"),
    }
    match parse_session_request(&vec![s(r#"{"sessionId":"s1","message":"hey","tools":["a",1,"b"],"model":"m"}"#)]) {
        Ok(SessionRequest::Query { session_id, message, system_prompt, tools, model }) => {
            assert_eq!(session_id, "s1");
            assert_eq!(message, "hey");
            assert_eq!(system_prompt, "You are helpful");
            assert_eq!(tools, "a,b");
            assert_eq!(model, "m");
        },
        _ => panic!("expected query"),
    }
    match parse_session_request(&vec![s(r#"{"sessionId":"s","tools":["","x"]}"#)]) {
        Ok(SessionRequest::Query { tools, message, .. }) => {
            assert_eq!(tools, ",x");
            assert_eq!(message, "hello");
        },
        _ => panic!("expected query"),
    }
    match parse_session_request(&vec![s(r#"{"action":"stop","sessionId":"s"}"#)]) {
        Ok(SessionRequest::Stop { session_id }) => assert_eq!(session_id, "s"),
        _ => panic!("expected stop"),
    }
}

#[test]
fn session_ids_and_answers() {
    assert_eq!(session_id(123), "agent_123");
    assert!(matches!(agent_answer(false, true, true), AgentAnswer::Failed));
    assert!(matches!(agent_answer(true, true, true), AgentAnswer::Response));
    assert!(matches!(agent_answer(true, false, true), AgentAnswer::Error));
    assert!(matches!(agent_answer(true, false, false), AgentAnswer::Whole));
}

#[test]
fn provider_table() {
    let ps = providers(Some("a-model".to_string()), None);
    let names: Vec<&str> = ps.iter().map(|p| p.provider.as_str()).collect();
    assert_eq!(names, vec!["openai", "anthropic", "groq", "openrouter", "together"]);
    assert_eq!(ps[0].chat_model, Some("gpt-4o-mini".to_string()));
    assert_eq!(ps[0].embedding_model, Some("text-embedding-3-small".to_string()));
    assert_eq!(ps[0].traits, strings(&["llm.rig.openai.agent", "llm.rig.openai.embed"]));
    assert_eq!(ps[0].note, None);
    assert_eq!(ps[1].chat_model, Some("a-model".to_string()));
    assert_eq!(ps[3].chat_model, None);
    assert_eq!(ps[2].chat_model, Some("llama-3.1-70b-versatile".to_string()));
    assert_eq!(ps[4].chat_model, Some("meta-llama/Meta-Llama-3.1-70B-Instruct-Turbo".to_string()));
    for p in &ps[1..] {
        assert_eq!(p.note, Some("available in rig-core, not yet shimmed here".to_string()));
        assert!(p.traits.is_empty());
    }
}

#[test]
fn anthropic_request_defaults_the_model() {
    let q = parse_anthropic_request(&vec![s("hi")], "default-model").ok().unwrap();
    assert_eq!(q.model, "default-model");
    let q2 = parse_anthropic_request(&vec![s("hi"), s("m1"), s("sys"), s("a.md")], "default-model").ok().unwrap();
    assert_eq!(q2.prompt, "hi");
    assert_eq!(q2.model, "m1");
    assert_eq!(q2.preamble, "sys");
    assert_eq!(q2.context_csv, "a.md");
    let err = |args: Vec<Arg>, d: &str| match parse_anthropic_request(&args, d) {
        Err(e) => e,
        Ok(_) => panic!("expected an error"),
    };
    assert_eq!(err(vec![s("")], "default-model"), "prompt is required");
    assert_eq!(err(vec![s("hi")], ""), "model is required");
}

#[test]
fn lua_code_must_not_be_blank() {
    assert_eq!(lua_code(&vec![s("print(1)")]), Ok("print(1)".to_string()));
    assert_eq!(lua_code(&vec![s("   ")]), Err("code is required".to_string()));
    assert_eq!(lua_code(&vec![]), Err("code is required".to_string()));
    assert_eq!(lua_code(&vec![Arg::UInt(3)]), Err("code is required".to_string()));
}

#[test]
fn session_request_from_parsed_config() {
    let member = |k: &str, v: Member| (k.to_string(), v);
    let text = |t: &str| Member::Str(t.to_string());
    let doc = Ok(JsonTop::Object(vec![
        member("action", text("query")),
        member("sessionId", text("s9")),
        member("system_prompt", Member::Other),
        member("tools", Member::List(vec![None, Some("t1".to_string()), Some("t2".to_string())])),
    ]));
    match session_request_from(doc) {
        Ok(SessionRequest::Query { session_id, message, system_prompt, tools, model }) => {
            assert_eq!(session_id, "s9");
            assert_eq!(message, "hello");
            assert_eq!(system_prompt, "You are helpful");
            assert_eq!(tools, "t1,t2");
            assert_eq!(model, "gpt-4o-mini");
        },
        _ => panic!("expected query"),
    }
    match session_request_from(Err("eof".to_string())) {
        Err(e) => assert_eq!(e, "JSON parse error: eof"),
        Ok(_) => panic!("expected an error"),
    }
    match session_request_from(Ok(JsonTop::Object(vec![member("action", text("create")), member("model", text("m"))]))) {
        Ok(SessionRequest::Create { model }) => assert_eq!(model, "m"),
        _ => panic!("expected create"),
    }
    match session_request_from(Ok(JsonTop::Object(vec![member("action", Member::Other)]))) {
        Err(e) => assert_eq!(e, "sessionId required"),
        Ok(_) => panic!("expected an error"),
    }
}

#[test]
fn sprite_prompt_asks_for_a_transparent_background() {
    let e = enhance_prompt("a dragon", "sprite").to_lowercase();
    assert!(e.contains("pixel art"));
    assert!(e.contains("transparent"));
}
