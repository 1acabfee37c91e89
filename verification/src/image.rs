//! Game-asset image requests: prompt engineering per asset mode, the size the
//! image API accepts for a model, where the image is stored, and what the
//! API's reply turns into.

use vstd::prelude::*;
use crate::args::{Arg, arg_nonempty, arg_nonempty_or, get_nonempty, get_nonempty_or, opt_chars};
use crate::context::split_on;
use crate::context::split_chars;
use crate::number::{parse_u32, parse_u32_spec};
use crate::text::{
    append, ascii_lower, byte_len, chars_of, char_is_alphanumeric, contains, contains_str,
    replace_char, replace_char_chars, starts_with, str_eq, str_starts_with, string_from_chars,
    string_of, to_lowercase, trim, trim_chars, unicode_alphanumeric, unicode_lowercase, utf8_len,
};

verus! {

broadcast use vstd::string::group_string_axioms;

// ───────────────────────── prompt engineering ─────────────────────────

/// The directive before the character in sheet mode.
pub open spec fn sheet_intro() -> Seq<char> {
    "Character reference sheet, 2x2 grid layout on a plain white background. Each cell shows the same character in a different pose: front view, back view, left side view, right side view. Consistent proportions, colors, and details across all four cells. Clean separation between cells with thin dividing lines. Character: "@
}

/// The directive after the character in sheet mode.
pub open spec fn sheet_outro() -> Seq<char> {
    ". Style: clean digital illustration, flat colors, sharp outlines, full body visible in each cell, centered in frame, game sprite art."@
}

/// The directive before the subject in icon mode.
pub open spec fn icon_intro() -> Seq<char> {
    "Game UI icon, flat design, centered subject, no background, clean vector style, bold outlines, vibrant colors, simple and instantly recognizable at small sizes. Subject: "@
}

/// The directive before the scene in bg mode.
pub open spec fn bg_intro() -> Seq<char> {
    "Game background scene, wide landscape composition, atmospheric perspective, no characters or UI elements, seamless horizontal scrolling friendly, rich detail, painted style. Scene: "@
}

/// The directive before the texture in tile mode.
pub open spec fn tile_intro() -> Seq<char> {
    "Seamless tileable texture pattern, top-down view, edges wrap perfectly for tiling in all directions, consistent lighting with no directional shadows, game terrain style. Texture: "@
}

/// The style a sprite prompt gets when it names none.
pub open spec fn sprite_style() -> Seq<char> {
    "Pixel art game sprite, clean sharp pixels, limited color palette"@
}

/// The transparent backdrop a sprite prompt asks for when the description
/// names no background.
pub open spec fn sprite_backdrop() -> Seq<char> {
    "on a transparent background for easy extraction"@
}

/// The framing every sprite prompt ends with.
pub open spec fn sprite_framing() -> Seq<char> {
    "centered in frame, full subject visible"@
}

/// The raw description already names an art style.
pub open spec fn names_style(lower: Seq<char>) -> bool {
    ||| contains(lower, "pixel art"@)
    ||| contains(lower, "sprite"@)
    ||| contains(lower, "vector"@)
    ||| contains(lower, "flat"@)
    ||| contains(lower, "illustration"@)
}

/// The raw description already says something about the background.
pub open spec fn names_backdrop(lower: Seq<char>) -> bool {
    ||| contains(lower, "transparent"@)
    ||| contains(lower, "background"@)
    ||| contains(lower, "no bg"@)
}

/// The sprite prompt: style directive (unless the description names a style),
/// the description, backdrop directive (unless it names a background), and
/// framing, joined with ". ".
pub open spec fn sprite_prompt(raw: Seq<char>) -> Seq<char> {
    let lower = unicode_lowercase(raw);
    (if names_style(lower) { Seq::empty() } else { sprite_style() + ". "@ }) + raw + (if names_backdrop(
        lower,
    ) {
        Seq::empty()
    } else {
        ". "@ + sprite_backdrop()
    }) + ". "@ + sprite_framing()
}

/// The prompt sent to the image API for a description and an asset mode.
pub open spec fn enhanced_prompt(raw: Seq<char>, mode: Seq<char>) -> Seq<char> {
    if mode == "sheet"@ {
        sheet_intro() + raw + sheet_outro()
    } else if mode == "icon"@ {
        icon_intro() + raw + "."@
    } else if mode == "bg"@ {
        bg_intro() + raw + "."@
    } else if mode == "tile"@ {
        tile_intro() + raw + "."@
    } else {
        sprite_prompt(raw)
    }
}

/// Wraps a raw asset description with the style directives of its mode:
/// `sheet` (2x2 character sheet), `icon`, `bg`, `tile`, or anything else for
/// a single sprite.
pub fn enhance_prompt(raw: &str, mode: &str) -> (r: String)
    ensures
        r@ == enhanced_prompt(raw@, mode@),
{
    if str_eq(mode, "sheet") {
        let mut s = string_of("Character reference sheet, 2x2 grid layout on a plain white background. Each cell shows the same character in a different pose: front view, back view, left side view, right side view. Consistent proportions, colors, and details across all four cells. Clean separation between cells with thin dividing lines. Character: ");
        append(&mut s, raw);
        append(&mut s, ". Style: clean digital illustration, flat colors, sharp outlines, full body visible in each cell, centered in frame, game sprite art.");
        s
    } else if str_eq(mode, "icon") {
        let mut s = string_of("Game UI icon, flat design, centered subject, no background, clean vector style, bold outlines, vibrant colors, simple and instantly recognizable at small sizes. Subject: ");
        append(&mut s, raw);
        append(&mut s, ".");
        s
    } else if str_eq(mode, "bg") {
        let mut s = string_of("Game background scene, wide landscape composition, atmospheric perspective, no characters or UI elements, seamless horizontal scrolling friendly, rich detail, painted style. Scene: ");
        append(&mut s, raw);
        append(&mut s, ".");
        s
    } else if str_eq(mode, "tile") {
        let mut s = string_of("Seamless tileable texture pattern, top-down view, edges wrap perfectly for tiling in all directions, consistent lighting with no directional shadows, game terrain style. Texture: ");
        append(&mut s, raw);
        append(&mut s, ".");
        s
    } else {
        let lower = to_lowercase(raw);
        let lc = chars_of(lower.as_str());
        let has_style = contains_str(&lc, "pixel art") || contains_str(&lc, "sprite")
            || contains_str(&lc, "vector") || contains_str(&lc, "flat")
            || contains_str(&lc, "illustration");
        let has_bg = contains_str(&lc, "transparent") || contains_str(&lc, "background")
            || contains_str(&lc, "no bg");
        let mut s = String::new();
        if !has_style {
            append(&mut s, "Pixel art game sprite, clean sharp pixels, limited color palette");
            append(&mut s, ". ");
        }
        append(&mut s, raw);
        if !has_bg {
            append(&mut s, ". ");
            append(&mut s, "on a transparent background for easy extraction");
        }
        append(&mut s, ". ");
        append(&mut s, "centered in frame, full subject visible");
        s
    }
}

/// The sheet hint up to the path.
pub open spec fn usage_hint_intro() -> Seq<char> {
    "This is a 2x2 character sheet. Slice it in your game JS:\n```\nconst resp = await traits.call('sys.vfs', ['read', '"@
}

/// The sheet hint after the path.
pub open spec fn usage_hint_outro() -> Seq<char> {
    "']);\nconst sheet = new Image();\nsheet.src = resp.content;\nsheet.onload = () => {\nconst W = sheet.width / 2, H = sheet.height / 2;\n['front','back','left','right'].forEach((dir, i) => {\nconst c = document.createElement('canvas');\nc.width = W; c.height = H;\nconst x = (i % 2) * W, y = Math.floor(i / 2) * H;\nc.getContext('2d').drawImage(sheet, x, y, W, H, 0, 0, W, H);\nsprites[dir] = c;  // use as drawImage source\n});\n};\n```"@
}

/// JS code hint for slicing the 2x2 character sheet stored at `vfs_path`.
pub fn sheet_usage_hint(vfs_path: &str) -> (r: String)
    ensures
        r@ == usage_hint_intro() + vfs_path@ + usage_hint_outro(),
{
    let mut s = string_of("This is a 2x2 character sheet. Slice it in your game JS:\n```\nconst resp = await traits.call('sys.vfs', ['read', '");
    append(&mut s, vfs_path);
    append(&mut s, "']);\nconst sheet = new Image();\nsheet.src = resp.content;\nsheet.onload = () => {\nconst W = sheet.width / 2, H = sheet.height / 2;\n['front','back','left','right'].forEach((dir, i) => {\nconst c = document.createElement('canvas');\nc.width = W; c.height = H;\nconst x = (i % 2) * W, y = Math.floor(i / 2) * H;\nc.getContext('2d').drawImage(sheet, x, y, W, H, 0, 0, W, H);\nsprites[dir] = c;  // use as drawImage source\n});\n};\n```");
    s
}

// ───────────────────────── sizes ─────────────────────────

/// The largest value among the pieces that read as `u32`, if any does.
pub open spec fn max_parsed(parts: Seq<Seq<char>>) -> Option<u32>
    decreases parts.len(),
{
    if parts.len() == 0 {
        None
    } else {
        let rest = max_parsed(parts.drop_last());
        match parse_u32_spec(parts.last()) {
            Some(v) => match rest {
                Some(m) => if v >= m { Some(v) } else { Some(m) },
                None => Some(v),
            },
            None => rest,
        }
    }
}

/// The largest dimension of a size request such as "512x512"; 256 when no
/// piece between the 'x's is a number.
pub open spec fn requested_max_dim(requested: Seq<char>) -> u32 {
    match max_parsed(split_on(requested, 'x')) {
        Some(m) => m,
        None => 256,
    }
}

/// The size the image API accepts for the requested size and model.
pub open spec fn api_size(requested: Seq<char>, model: Seq<char>) -> Seq<char> {
    if model == "dall-e-2"@ {
        let m = requested_max_dim(requested);
        if m <= 256 {
            "256x256"@
        } else if m <= 512 {
            "512x512"@
        } else {
            "1024x1024"@
        }
    } else if model == "dall-e-3"@ {
        "1024x1024"@
    } else if requested == "auto"@ {
        "auto"@
    } else {
        "1024x1024"@
    }
}

/// Normalizes a requested size to one the image API accepts for `model`:
/// dall-e-2 rounds the largest dimension up to 256, 512 or 1024; dall-e-3
/// always takes 1024x1024; other models take "auto" or 1024x1024.
pub fn normalize_size(requested: &str, model: &str) -> (r: &'static str)
    ensures
        r@ == api_size(requested@, model@),
{
    if str_eq(model, "dall-e-2") {
        let rc = chars_of(requested);
        let parts = split_chars(&rc, 'x');
        let ghost pv = parts@.map_values(|p: Vec<char>| p@);
        let mut best: Option<u32> = None;
        let mut i: usize = 0;
        while i < parts.len()
            invariant
                i <= parts.len(),
                pv == parts@.map_values(|p: Vec<char>| p@),
                best == max_parsed(pv.take(i as int)),
            decreases parts.len() - i,
        {
            assert(pv.take(i + 1).drop_last() =~= pv.take(i as int));
            let piece = string_from_chars(&parts[i]);
            match parse_u32(piece.as_str()) {
                Some(v) => {
                    best = match best {
                        Some(m) => if v >= m { Some(v) } else { Some(m) },
                        None => Some(v),
                    };
                },
                None => {},
            }
            i += 1;
        }
        assert(pv.take(parts.len() as int) =~= pv);
        let m = match best {
            Some(m) => m,
            None => 256,
        };
        if m <= 256 {
            "256x256"
        } else if m <= 512 {
            "512x512"
        } else {
            "1024x1024"
        }
    } else if str_eq(model, "dall-e-3") {
        "1024x1024"
    } else if str_eq(requested, "auto") {
        "auto"
    } else {
        "1024x1024"
    }
}

/// The size asked for when none is given: by asset mode.
pub open spec fn default_size(mode: Seq<char>) -> Seq<char> {
    if mode == "sheet"@ || mode == "bg"@ {
        "1024x1024"@
    } else if mode == "tile"@ {
        "512x512"@
    } else {
        "256x256"@
    }
}

fn default_size_for(mode: &str) -> (r: &'static str)
    ensures
        r@ == default_size(mode@),
{
    if str_eq(mode, "sheet") || str_eq(mode, "bg") {
        "1024x1024"
    } else if str_eq(mode, "tile") {
        "512x512"
    } else {
        "256x256"
    }
}

// ───────────────────────── storage path ─────────────────────────

/// The characters of the description that go into a file name: letters,
/// digits and spaces, at most the first thirty of them.
pub open spec fn slug_source(prompt: Seq<char>) -> Seq<char> {
    let kept = prompt.filter(|c: char| unicode_alphanumeric(c) || c == ' ');
    if kept.len() <= 30 { kept } else { kept.take(30) }
}

/// The file-name slug of a description: the kept characters, trimmed, spaces
/// turned into '_', lowercased.
pub open spec fn image_slug(prompt: Seq<char>) -> Seq<char> {
    unicode_lowercase(replace_char(trim(slug_source(prompt)), ' ', "_"@))
}

/// The directory for generated assets of a mode.
pub open spec fn asset_dir(mode: Seq<char>) -> Seq<char> {
    if mode == "sheet"@ {
        "sheets"@
    } else if mode == "icon"@ {
        "icons"@
    } else if mode == "bg"@ {
        "backgrounds"@
    } else if mode == "tile"@ {
        "tiles"@
    } else {
        "sprites"@
    }
}

/// Where a generated image is stored when no path is given.
pub open spec fn generated_path(prompt: Seq<char>, mode: Seq<char>) -> Seq<char> {
    let slug = image_slug(prompt);
    asset_dir(mode) + "/"@ + (if slug.len() == 0 { "generated"@ } else { slug }) + ".png"@
}

fn slug_of(prompt: &str) -> (r: String)
    ensures
        r@ == image_slug(prompt@),
{
    let pc = chars_of(prompt);
    let ghost keep = |c: char| unicode_alphanumeric(c) || c == ' ';
    let mut kept: Vec<char> = Vec::new();
    let mut i: usize = 0;
    while i < pc.len() && kept.len() < 30
        invariant
            i <= pc.len(),
            pc@ == prompt@,
            kept.len() <= 30,
            forall|x: char| #[trigger] keep(x) == (unicode_alphanumeric(x) || x == ' '),
            kept@ == pc@.take(i as int).filter(keep),
        decreases pc.len() - i,
    {
        assert(pc@.take(i + 1).drop_last() =~= pc@.take(i as int));
        reveal_with_fuel(Seq::filter, 1);
        let c = pc[i];
        let k = char_is_alphanumeric(c) || c == ' ';
        assert(k == keep(c));
        assert(pc@.take(i + 1).last() == c);
        if k {
            kept.push(c);
        }
        i += 1;
    }
    proof {
        let all = pc@.filter(keep);
        if i < pc.len() {
            // thirty kept already: the rest of the filter only extends them
            assert(pc@ =~= pc@.take(i as int) + pc@.skip(i as int));
            Seq::filter_distributes_over_add(pc@.take(i as int), pc@.skip(i as int), keep);
            assert(all =~= kept@ + pc@.skip(i as int).filter(keep));
            assert(all.take(30) =~= kept@);
        } else {
            assert(pc@.take(i as int) =~= pc@);
        }
    }
    let t = trim_chars(&kept);
    let us = chars_of("_");
    let r = replace_char_chars(&t, ' ', &us);
    let rs = string_from_chars(&r);
    to_lowercase(rs.as_str())
}

fn asset_dir_for(mode: &str) -> (r: &'static str)
    ensures
        r@ == asset_dir(mode@),
{
    if str_eq(mode, "sheet") {
        "sheets"
    } else if str_eq(mode, "icon") {
        "icons"
    } else if str_eq(mode, "bg") {
        "backgrounds"
    } else if str_eq(mode, "tile") {
        "tiles"
    } else {
        "sprites"
    }
}

/// The storage path derived from the description and mode.
pub fn generated_image_path(prompt: &str, mode: &str) -> (r: String)
    ensures
        r@ == generated_path(prompt@, mode@),
{
    let slug = slug_of(prompt);
    let mut p = string_of(asset_dir_for(mode));
    append(&mut p, "/");
    if slug.as_str().is_empty() {
        append(&mut p, "generated");
    } else {
        append(&mut p, slug.as_str());
    }
    append(&mut p, ".png");
    p
}

// ───────────────────────── request and reply ─────────────────────────

/// Everything an image request is made of.
pub struct ImagePlan {
    /// The image model.
    pub model: String,
    /// The asset mode.
    pub mode: String,
    /// The size the API is asked for.
    pub size: String,
    /// The prompt sent to the API.
    pub prompt: String,
    /// Where the image is stored.
    pub path: String,
    /// Whether the reply is asked for as base64 JSON (dall-e models).
    pub b64_json: bool,
}

/// The arguments `[prompt, path?, size?, model?, mode?]` as a plan: `Err`
/// with "prompt is required" when the prompt is missing or empty. Empty
/// optional arguments count as missing; the model defaults to "dall-e-2",
/// the mode to "sprite", the size to the mode's default.
pub open spec fn image_plan_ok(args: Seq<Arg>, p: ImagePlan) -> bool {
    let prompt = arg_nonempty(args, 0)->0;
    let model = arg_nonempty_or(args, 3, "dall-e-2"@);
    let mode = arg_nonempty_or(args, 4, "sprite"@);
    let size = match arg_nonempty(args, 2) {
        Some(s) => s,
        None => default_size(mode),
    };
    &&& p.model@ == model
    &&& p.mode@ == mode
    &&& p.size@ == api_size(size, model)
    &&& p.prompt@ == enhanced_prompt(prompt, mode)
    &&& p.path@ == (match arg_nonempty(args, 1) {
        Some(path) => path,
        None => generated_path(prompt, mode),
    })
    &&& p.b64_json == starts_with(model, "dall-e"@)
}

/// Plans an image request from the call arguments `[prompt, path?, size?,
/// model?, mode?]`.
pub fn plan_image(args: &Vec<Arg>) -> (r: Result<ImagePlan, String>)
    ensures
        arg_nonempty(args@, 0) is None ==> (r matches Err(e) && e@ == "prompt is required"@),
        arg_nonempty(args@, 0) is Some ==> (r matches Ok(p) && image_plan_ok(args@, p)),
{
    let prompt = match get_nonempty(args, 0) {
        Some(p) => p,
        None => return Err(string_of("prompt is required")),
    };
    let vfs_path = get_nonempty(args, 1);
    let size_hint = get_nonempty(args, 2);
    let model = get_nonempty_or(args, 3, "dall-e-2");
    let mode = get_nonempty_or(args, 4, "sprite");
    let size = match size_hint {
        Some(s) => s,
        None => string_of(default_size_for(mode.as_str())),
    };
    let api = normalize_size(size.as_str(), model.as_str());
    let enhanced = enhance_prompt(prompt.as_str(), mode.as_str());
    let path = match vfs_path {
        Some(p) => p,
        None => generated_image_path(prompt.as_str(), mode.as_str()),
    };
    let b64 = str_starts_with(model.as_str(), "dall-e");
    Ok(ImagePlan { model, mode, size: string_of(api), prompt: enhanced, path, b64_json: b64 })
}

/// What an image request ends in.
pub enum ImageOutcome {
    /// The request failed, with this message.
    Failed { error: String },
    /// Base64 image data: `data_url` is stored at `path`.
    DataUrl { path: String, data_url: String, data_url_length: usize, usage_hint: Option<String> },
    /// An image URL: `url` is stored at `path`.
    Url { path: String, url: String, usage_hint: Option<String> },
}

/// The sheet hint for sheet mode, nothing otherwise.
pub open spec fn hint_for(mode: Seq<char>, path: Seq<char>) -> Option<Seq<char>> {
    if mode == "sheet"@ {
        Some(usage_hint_intro() + path + usage_hint_outro())
    } else {
        None
    }
}

/// A present, non-empty string.
pub open spec fn has_text(o: Option<Seq<char>>) -> bool {
    o matches Some(t) && t.len() > 0
}

/// Turns the API's reply into the outcome: a failed call fails with the API's
/// error message (or a generic one); otherwise base64 data is preferred over a
/// URL; a reply with neither fails with "No image data in API response".
/// `ok` is the reply's success flag, `api_error` its `error.message`,
/// `b64` and `url` its first image's `b64_json` and `url`.
pub fn image_outcome(
    plan: &ImagePlan,
    ok: bool,
    api_error: Option<String>,
    b64: Option<String>,
    url: Option<String>,
) -> (r: ImageOutcome)
    ensures
        !ok ==> (r matches ImageOutcome::Failed { error } && error@ == (match opt_chars(api_error) {
            Some(m) => m,
            None => "OpenAI image API call failed"@,
        })),
        ok && has_text(opt_chars(b64)) ==> (r matches ImageOutcome::DataUrl {
            path,
            data_url,
            data_url_length,
            usage_hint,
        } && path@ == plan.path@ && data_url@ == "data:image/png;base64,"@ + opt_chars(b64)->0
            && data_url_length == utf8_len(data_url@) as usize && opt_chars(usage_hint) == hint_for(
            plan.mode@,
            plan.path@,
        )),
        ok && !has_text(opt_chars(b64)) && has_text(opt_chars(url)) ==> (r matches ImageOutcome::Url {
            path,
            url: out_url,
            usage_hint,
        } && path@ == plan.path@ && out_url@ == opt_chars(url)->0 && opt_chars(usage_hint) == hint_for(
            plan.mode@,
            plan.path@,
        )),
        ok && !has_text(opt_chars(b64)) && !has_text(opt_chars(url)) ==> (r matches ImageOutcome::Failed {
            error,
        } && error@ == "No image data in API response"@),
{
    if !ok {
        let error = match api_error {
            Some(m) => m,
            None => string_of("OpenAI image API call failed"),
        };
        return ImageOutcome::Failed { error };
    }
    let hint = if str_eq(plan.mode.as_str(), "sheet") {
        Some(sheet_usage_hint(plan.path.as_str()))
    } else {
        None
    };
    match b64 {
        Some(d) => {
            if !d.as_str().is_empty() {
                let mut data_url = string_of("data:image/png;base64,");
                append(&mut data_url, d.as_str());
                let n = byte_len(data_url.as_str());
                return ImageOutcome::DataUrl {
                    path: plan.path.clone(),
                    data_url,
                    data_url_length: n,
                    usage_hint: hint,
                };
            }
        },
        None => {},
    }
    match url {
        Some(u) => {
            if !u.as_str().is_empty() {
                return ImageOutcome::Url { path: plan.path.clone(), url: u, usage_hint: hint };
            }
        },
        None => {},
    }
    ImageOutcome::Failed { error: string_of("No image data in API response") }
}

// ───────────────────────── laws ─────────────────────────

/// Whatever the request, dall-e-2 is asked for one of its three sizes.
pub proof fn lemma_dalle2_size_is_supported(requested: Seq<char>)
    ensures
        api_size(requested, "dall-e-2"@) == "256x256"@ || api_size(requested, "dall-e-2"@)
            == "512x512"@ || api_size(requested, "dall-e-2"@) == "1024x1024"@,
{
}

/// A sprite whose description names no background is asked for on a
/// transparent one.
pub proof fn lemma_sprite_backdrop_is_transparent(raw: Seq<char>)
    requires
        !names_backdrop(unicode_lowercase(raw)),
    ensures
        contains(enhanced_prompt(raw, "sprite"@), "transparent"@),
{
    reveal_strlit("sprite");
    reveal_strlit("sheet");
    reveal_strlit("icon");
    reveal_strlit("bg");
    reveal_strlit("tile");
    reveal_strlit("transparent");
    reveal_strlit("on a transparent background for easy extraction");
    reveal_strlit(". ");
    let lower = unicode_lowercase(raw);
    let pre: Seq<char> = (if names_style(lower) { Seq::empty() } else { sprite_style() + ". "@ }) + raw + ". "@;
    let e = enhanced_prompt(raw, "sprite"@);
    assert("sprite"@ != "sheet"@ && "sprite"@ != "icon"@ && "sprite"@ != "bg"@ && "sprite"@ != "tile"@) by {
        assert("sprite"@[1] != "sheet"@[1]);
        assert("sprite"@.len() != "icon"@.len());
        assert("sprite"@.len() != "bg"@.len());
        assert("sprite"@.len() != "tile"@.len());
    }
    assert(e == pre + sprite_backdrop() + ". "@ + sprite_framing());
    let i = pre.len() + 5int;
    assert(e.subrange(i, i + "transparent"@.len()) =~= "transparent"@);
}

/// The enhanced prompt always carries the raw description.
pub proof fn lemma_prompt_keeps_description(raw: Seq<char>, mode: Seq<char>)
    ensures
        contains(enhanced_prompt(raw, mode), raw),
{
    let e = enhanced_prompt(raw, mode);
    let pre: Seq<char> = if mode == "sheet"@ {
        sheet_intro()
    } else if mode == "icon"@ {
        icon_intro()
    } else if mode == "bg"@ {
        bg_intro()
    } else if mode == "tile"@ {
        tile_intro()
    } else {
        let lower = unicode_lowercase(raw);
        if names_style(lower) { Seq::empty() } else { sprite_style() + ". "@ }
    };
    assert(e.subrange(pre.len() as int, (pre.len() + raw.len()) as int) =~= raw);
}

/// When no size is given, the size asked for follows the mode: a character
/// sheet and a background ask for 1024x1024, a tile for 512x512, and every
/// other mode (a sprite, an icon) for 256x256, each normalized for the model.
/// The prompt, path and model do not change it.
pub proof fn lemma_default_size_by_mode(args: Seq<Arg>, p: ImagePlan)
    requires
        image_plan_ok(args, p),
        arg_nonempty(args, 2) is None,
    ensures
        ({
            let model = arg_nonempty_or(args, 3, "dall-e-2"@);
            let mode = arg_nonempty_or(args, 4, "sprite"@);
            &&& (mode == "sheet"@ || mode == "bg"@) ==> p.size@ == api_size("1024x1024"@, model)
            &&& mode == "tile"@ ==> p.size@ == api_size("512x512"@, model)
            &&& (mode != "sheet"@ && mode != "bg"@ && mode != "tile"@) ==> p.size@ == api_size("256x256"@, model)
        }),
{
    reveal_strlit("tile");
    reveal_strlit("sheet");
    reveal_strlit("bg");
    assert("tile"@ != "sheet"@ && "tile"@ != "bg"@) by {
        assert("tile"@.len() != "sheet"@.len());
        assert("tile"@.len() != "bg"@.len());
    }
}

} // verus!
