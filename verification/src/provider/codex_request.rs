//! The requests that are sent to the provider that speaks the Responses API.
use vstd::prelude::*;

use crate::json;
use crate::json::{Json, JsonView};
use crate::provider::models;
use crate::provider::models::{ModelInfo, ModelView};
use crate::runtime::prompt;
use crate::runtime::prompt::{
    ImageAttachment, ImageView, MessagePart, ModelMessage, ModelMessageView, PartView, RequestView,
    TurnRequest,
};
use crate::text;
use crate::tools::names;
use crate::tools::names::ToolName;

verus! {

// ---------------------------------------------------------------------------
// Models
// ---------------------------------------------------------------------------

/// The model that is asked for under a name, which may be one that is not supported.
pub open spec fn model_of(name: Seq<char>) -> Seq<char> {
    let m = text::trimmed(name);
    if m == ""@ || m == "gpt-5"@ || m == "gpt-5-mini"@ || m == "gpt-4.1"@ {
        "gpt-5.5"@
    } else {
        m
    }
}

/// The model that is asked for under a name.
pub fn normalize_codex_model(model: &str) -> (r: String)
    ensures
        r@ == model_of(model@),
{
    let m = text::trim(model);
    let s = m.as_str();
    if text::same(s, "") || text::same(s, "gpt-5") || text::same(s, "gpt-5-mini") || text::same(
        s,
        "gpt-4.1",
    ) {
        "gpt-5.5".to_string()
    } else {
        m
    }
}

/// The models that are always offered.
pub open spec fn own_models() -> Seq<ModelView> {
    seq![
        models::named_model("gpt-5.5"@, "GPT-5.5"@),
        models::named_model("gpt-5.4"@, "GPT-5.4"@),
        models::named_model("gpt-5.4-mini"@, "GPT-5.4-Mini"@),
    ]
}

/// The models that are offered, with those that the environment names.
pub fn codex_model_catalog(env: Option<&str>) -> (r: Vec<ModelInfo>)
    ensures
        models::model_views(r@) == models::extended(
            own_models(),
            models::ids_of(
                match env {
                    Some(e) => Some(e@),
                    None => None,
                },
            ),
        ),
{
    let mut r: Vec<ModelInfo> = Vec::new();
    r.push(ModelInfo::named("gpt-5.5", "GPT-5.5"));
    r.push(ModelInfo::named("gpt-5.4", "GPT-5.4"));
    r.push(ModelInfo::named("gpt-5.4-mini", "GPT-5.4-Mini"));
    assert(models::model_views(r@) =~= own_models());
    let ids = models::read_ids_of(env);
    models::extend_models(&mut r, &ids);
    r
}

// ---------------------------------------------------------------------------
// Effort
// ---------------------------------------------------------------------------

/// The text without underscores, hyphens and spaces.
pub open spec fn without_marks(s: Seq<char>) -> Seq<char>
    decreases s.len(),
{
    if s.len() == 0 {
        s
    } else {
        let before = without_marks(s.drop_last());
        if s.last() == '_' || s.last() == '-' || s.last() == ' ' {
            before
        } else {
            before.push(s.last())
        }
    }
}

fn drop_marks(s: &str) -> (r: String)
    ensures
        r@ == without_marks(s@),
{
    let cs = text::chars_of(s);
    let mut r = String::new();
    let mut i: usize = 0;
    while i < cs.len()
        invariant
            i <= cs@.len(),
            r@ == without_marks(cs@.take(i as int)),
        decreases cs@.len() - i,
    {
        assert(cs@.take(i + 1).drop_last() =~= cs@.take(i as int));
        let c = cs[i];
        if !(c == '_' || c == '-' || c == ' ') {
            r.push(c);
        }
        i += 1;
    }
    assert(cs@.take(i as int) =~= cs@);
    r
}

/// How an effort is called, whatever way it is written.
pub open spec fn effort_named(effort: Seq<char>) -> Seq<char> {
    let e = without_marks(text::ascii_lower(text::trimmed(effort)));
    if e == "none"@ || e == "minimal"@ || e == "low"@ || e == "medium"@ || e == "high"@ {
        e
    } else if e == "xhigh"@ || e == "extrahigh"@ || e == "max"@ || e == "ultracode"@ {
        "xhigh"@
    } else {
        "medium"@
    }
}

/// The effort that a model is asked for: those that support less get what comes closest.
pub open spec fn effort_of(model: Seq<char>, effort: Seq<char>) -> Seq<char> {
    let e = effort_named(effort);
    if text::ascii_lower(model) == text::ascii_lower("gpt-5-pro"@) {
        "high"@
    } else if text::starts_with(model, "gpt-5.1"@) && e == "xhigh"@ {
        "high"@
    } else if (text::starts_with(model, "o1"@) || text::starts_with(model, "o3"@)
        || text::starts_with(model, "o4"@) || text::starts_with(model, "codex-mini"@)) && (e
        == "none"@ || e == "minimal"@ || e == "xhigh"@) {
        "medium"@
    } else {
        e
    }
}

/// The effort that a model is asked for.
pub fn normalize_codex_reasoning_effort(model: &str, effort: &str) -> (r: &'static str)
    ensures
        r@ == effort_of(model@, effort@),
{
    let t = text::trim(effort);
    let lower = text::to_ascii_lowercase(t.as_str());
    let plain = drop_marks(lower.as_str());
    let s = plain.as_str();
    let e = if text::same(s, "none") {
        "none"
    } else if text::same(s, "minimal") {
        "minimal"
    } else if text::same(s, "low") {
        "low"
    } else if text::same(s, "medium") {
        "medium"
    } else if text::same(s, "high") {
        "high"
    } else if text::same(s, "xhigh") || text::same(s, "extrahigh") || text::same(s, "max")
        || text::same(s, "ultracode") {
        "xhigh"
    } else {
        "medium"
    };
    if text::eq_ignore_ascii_case(model, "gpt-5-pro") {
        return "high";
    }
    if text::has_prefix(model, "gpt-5.1") && text::same(e, "xhigh") {
        return "high";
    }
    if (text::has_prefix(model, "o1") || text::has_prefix(model, "o3") || text::has_prefix(
        model,
        "o4",
    ) || text::has_prefix(model, "codex-mini")) && (text::same(e, "none") || text::same(
        e,
        "minimal",
    ) || text::same(e, "xhigh")) {
        return "medium";
    }
    e
}

// ---------------------------------------------------------------------------
// Messages
// ---------------------------------------------------------------------------

/// The address under which a picture's content stands in a request.
pub open spec fn data_url(image: ImageView) -> Seq<char> {
    "data:"@ + image.mime_type + ";base64,"@ + image.base64_data
}

/// The address under which a picture's content stands in a request.
pub fn image_url(image: &ImageAttachment) -> (r: String)
    ensures
        r@ == data_url(image@),
{
    text::cat4("data:", image.mime_type.as_str(), ";base64,", image.base64_data.as_str())
}

/// A text in a request.
pub open spec fn input_text(s: Seq<char>) -> JsonView {
    json::empty_object().with("type"@, JsonView::Text("input_text"@)).with(
        "text"@,
        JsonView::Text(s),
    )
}

/// A picture in a request.
pub open spec fn input_image(image: ImageView) -> JsonView {
    json::empty_object().with("type"@, JsonView::Text("input_image"@)).with(
        "image_url"@,
        JsonView::Text(data_url(image)),
    ).with("detail"@, JsonView::Text("auto"@))
}

/// A part of a message in a request.
pub open spec fn part_json(part: PartView, is_assistant: bool) -> JsonView {
    match part {
        PartView::Text { text } => if is_assistant {
            json::empty_object().with("type"@, JsonView::Text("output_text"@)).with(
                "text"@,
                JsonView::Text(text),
            ).with("annotations"@, JsonView::Array(seq![]))
        } else {
            input_text(text)
        },
        PartView::Image { image } => input_image(image),
    }
}

/// Whether a part is a text that is blank.
pub open spec fn is_empty_text(part: PartView) -> bool {
    part matches PartView::Text { text } && text::trimmed(text).len() == 0
}

/// The parts with a label before them.
pub open spec fn labelled(label: Seq<char>, parts: Seq<PartView>) -> Seq<PartView> {
    let prefix = label + ":\n"@;
    if parts.len() == 0 {
        seq![PartView::Text { text: prefix }]
    } else {
        match parts[0] {
            PartView::Text { text } => parts.update(0, PartView::Text { text: prefix + text }),
            PartView::Image { image } => seq![PartView::Text { text: prefix }] + parts,
        }
    }
}

/// The role of a message in a request.
pub open spec fn role_of(role: Seq<char>) -> Seq<char> {
    let r = text::ascii_lower(role);
    if r == "assistant"@ || r == "system"@ || r == "developer"@ {
        r
    } else {
        "user"@
    }
}

/// The parts of a message in a request: what neither the user nor the model has said is
/// labelled.
pub open spec fn parts_of(m: ModelMessageView) -> Seq<PartView> {
    let r = text::ascii_lower(m.role);
    if r == "assistant"@ || r == "system"@ || r == "developer"@ || r == "user"@ {
        m.parts
    } else if r == "tool"@ {
        labelled("Tool"@, m.parts)
    } else {
        labelled(m.role, m.parts)
    }
}

pub open spec fn all_empty(parts: Seq<PartView>) -> bool {
    forall|i: int| 0 <= i < parts.len() ==> is_empty_text(#[trigger] parts[i])
}

/// A message in a request, unless it is blank.
pub open spec fn message_json(m: ModelMessageView) -> Option<JsonView> {
    let parts = parts_of(m);
    let role = role_of(m.role);
    if all_empty(parts) {
        None
    } else {
        Some(
            json::empty_object().with("role"@, JsonView::Text(role)).with(
                "content"@,
                JsonView::Array(
                    parts.map_values(|p: PartView| part_json(p, role == "assistant"@)),
                ),
            ),
        )
    }
}

/// The messages in a request, without those that are blank.
pub open spec fn messages_json(messages: Seq<ModelMessageView>) -> Seq<JsonView>
    decreases messages.len(),
{
    if messages.len() == 0 {
        seq![]
    } else {
        let before = messages_json(messages.drop_last());
        match message_json(messages.last()) {
            Some(m) => before.push(m),
            None => before,
        }
    }
}

/// The prompt and its pictures as the only message of a request.
pub open spec fn prompt_json(prompt: Seq<char>, images: Seq<ImageView>) -> JsonView {
    json::empty_object().with("role"@, JsonView::Text("user"@)).with(
        "content"@,
        JsonView::Array(
            seq![input_text(prompt)] + images.map_values(|i: ImageView| input_image(i)),
        ),
    )
}

/// What a request begins with: its messages, or, where it has none, the prompt.
pub open spec fn input_of(req: RequestView) -> Seq<JsonView> {
    if req.messages.len() == 0 {
        seq![prompt_json(req.prompt, req.images)]
    } else {
        messages_json(req.messages)
    }
}

fn text_json(s: &str) -> (r: Json)
    ensures
        r@ == input_text(s@),
{
    Json::object().with("type", Json::text("input_text")).with("text", Json::text(s))
}

fn image_json(image: &ImageAttachment) -> (r: Json)
    ensures
        r@ == input_image(image@),
{
    let url = image_url(image);
    Json::object().with("type", Json::text("input_image")).with(
        "image_url",
        Json::text(url.as_str()),
    ).with("detail", Json::text("auto"))
}

/// A part of a message in a request.
pub fn codex_part(part: &MessagePart, is_assistant: bool) -> (r: Json)
    ensures
        r@ == part_json(part@, is_assistant),
{
    match part {
        MessagePart::Text { text } => if is_assistant {
            Json::object().with("type", Json::text("output_text")).with(
                "text",
                Json::text(text.as_str()),
            ).with("annotations", Json::Array(json::no_items()))
        } else {
            text_json(text.as_str())
        },
        MessagePart::Image { image } => image_json(image),
    }
}

/// The parts with a label before them.
pub fn prefix_text_parts(label: &str, parts: &Vec<MessagePart>) -> (r: Vec<MessagePart>)
    ensures
        prompt::part_views(r@) == labelled(label@, prompt::part_views(parts@)),
{
    let prefix = text::cat2(label, ":\n");
    let ghost all = prompt::part_views(parts@);
    let ghost out = labelled(label@, all);
    let mut r: Vec<MessagePart> = Vec::new();
    if parts.len() == 0 {
        r.push(MessagePart::Text { text: prefix });
        assert(prompt::part_views(r@) =~= out);
        return r;
    }
    let mut i: usize = 0;
    match &parts[0] {
        MessagePart::Text { text } => {
            r.push(MessagePart::Text { text: text::cat2(prefix.as_str(), text.as_str()) });
            i = 1;
        },
        MessagePart::Image { .. } => {
            r.push(MessagePart::Text { text: prefix });
        },
    }
    let ghost shift = out.len() - all.len();
    assert(prompt::part_views(r@) =~= out.take(i + shift));
    while i < parts.len()
        invariant
            i <= parts@.len(),
            all == prompt::part_views(parts@),
            out == labelled(label@, all),
            shift == out.len() - all.len(),
            parts@.len() > 0,
            i + shift >= 1,
            0 <= shift <= 1,
            prompt::part_views(r@) == out.take(i + shift),
        decreases parts@.len() - i,
    {
        let ghost before = prompt::part_views(r@);
        r.push(parts[i].clone());
        assert(out[i + shift] == all[i as int]);
        assert(prompt::part_views(r@) =~= before.push(all[i as int]));
        assert(out.take(i + 1 + shift) =~= out.take(i + shift).push(out[i + shift]));
        i += 1;
    }
    assert(out.take(i + shift) =~= out);
    r
}

fn copy_parts(parts: &Vec<MessagePart>) -> (r: Vec<MessagePart>)
    ensures
        prompt::part_views(r@) == prompt::part_views(parts@),
{
    let ghost all = prompt::part_views(parts@);
    let mut r: Vec<MessagePart> = Vec::new();
    let mut i: usize = 0;
    while i < parts.len()
        invariant
            i <= parts@.len(),
            r@.len() == i,
            all == prompt::part_views(parts@),
            forall|k: int| 0 <= k < i ==> (#[trigger] r@[k])@ == all[k],
        decreases parts@.len() - i,
    {
        r.push(parts[i].clone());
        i += 1;
    }
    assert(prompt::part_views(r@) =~= all);
    r
}

fn role_and_parts(message: &ModelMessage) -> (r: (&'static str, Vec<MessagePart>))
    ensures
        r.0@ == role_of(message@.role),
        prompt::part_views(r.1@) == parts_of(message@),
{
    let lower = text::to_ascii_lowercase(message.role.as_str());
    let s = lower.as_str();
    if text::same(s, "assistant") {
        ("assistant", copy_parts(&message.parts))
    } else if text::same(s, "system") {
        ("system", copy_parts(&message.parts))
    } else if text::same(s, "developer") {
        ("developer", copy_parts(&message.parts))
    } else if text::same(s, "user") {
        ("user", copy_parts(&message.parts))
    } else if text::same(s, "tool") {
        ("user", prefix_text_parts("Tool", &message.parts))
    } else {
        ("user", prefix_text_parts(message.role.as_str(), &message.parts))
    }
}

/// Whether each part is a text that is blank.
pub fn parts_are_empty(parts: &Vec<MessagePart>) -> (r: bool)
    ensures
        r == all_empty(prompt::part_views(parts@)),
{
    let ghost all = prompt::part_views(parts@);
    let mut i: usize = 0;
    while i < parts.len()
        invariant
            i <= parts@.len(),
            all == prompt::part_views(parts@),
            forall|k: int| 0 <= k < i ==> is_empty_text(#[trigger] all[k]),
        decreases parts@.len() - i,
    {
        let empty = match &parts[i] {
            MessagePart::Text { text } => {
                let t = text::trim(text.as_str());
                text::is_blank_len(&t)
            },
            MessagePart::Image { .. } => false,
        };
        assert(empty == is_empty_text(all[i as int]));
        if !empty {
            return false;
        }
        i += 1;
    }
    true
}

/// A message in a request, unless it is blank.
pub fn codex_message(message: &ModelMessage) -> (r: Option<Json>)
    ensures
        match r {
            Some(j) => message_json(message@) == Some(j@),
            None => message_json(message@) is None,
        },
{
    let (role, parts) = role_and_parts(message);
    if parts_are_empty(&parts) {
        return None;
    }
    let is_assistant = text::same(role, "assistant");
    let ghost all = prompt::part_views(parts@);
    let ghost told = all.map_values(|p: PartView| part_json(p, is_assistant));
    let mut content = json::no_items();
    let mut i: usize = 0;
    assert(told.take(0) =~= seq![]);
    while i < parts.len()
        invariant
            i <= parts@.len(),
            all == prompt::part_views(parts@),
            told == all.map_values(|p: PartView| part_json(p, is_assistant)),
            json::array_view(content@) == told.take(i as int),
        decreases parts@.len() - i,
    {
        json::push_item(&mut content, codex_part(&parts[i], is_assistant));
        assert(told.take(i + 1) =~= told.take(i as int).push(told[i as int]));
        i += 1;
    }
    assert(told.take(i as int) =~= told);
    assert(told =~= all.map_values(|p: PartView| part_json(p, role@ == "assistant"@)));
    Some(Json::object().with("role", Json::text(role)).with("content", Json::Array(content)))
}

fn legacy_input_message(req: &TurnRequest) -> (r: Json)
    ensures
        r@ == prompt_json(req@.prompt, req@.images),
{
    let ghost told = seq![input_text(req@.prompt)] + req@.images.map_values(
        |i: ImageView| input_image(i),
    );
    let mut content = json::no_items();
    json::push_item(&mut content, text_json(req.prompt.as_str()));
    assert(json::array_view(content@) =~= told.take(1));
    let mut i: usize = 0;
    while i < req.images.len()
        invariant
            i <= req.images@.len(),
            told == seq![input_text(req@.prompt)] + req@.images.map_values(
                |i: ImageView| input_image(i),
            ),
            json::array_view(content@) == told.take(i + 1),
        decreases req.images@.len() - i,
    {
        json::push_item(&mut content, image_json(&req.images[i]));
        assert(told.take(i + 2) =~= told.take(i + 1).push(told[i + 1]));
        i += 1;
    }
    assert(told.take(i + 1) =~= told);
    Json::object().with("role", Json::text("user")).with("content", Json::Array(content))
}

/// What a request begins with.
pub fn codex_input_messages(req: &TurnRequest) -> (r: Vec<Json>)
    ensures
        json::array_view(r@) == input_of(req@),
{
    let mut r = json::no_items();
    if req.messages.len() == 0 {
        json::push_item(&mut r, legacy_input_message(req));
        assert(json::array_view(r@) =~= seq![prompt_json(req@.prompt, req@.images)]);
        return r;
    }
    let ghost all = req@.messages;
    let mut i: usize = 0;
    assert(json::array_view(r@) =~= messages_json(all.take(0)));
    while i < req.messages.len()
        invariant
            i <= req.messages@.len(),
            all == req@.messages,
            json::array_view(r@) == messages_json(all.take(i as int)),
        decreases req.messages@.len() - i,
    {
        assert(all.take(i + 1).drop_last() =~= all.take(i as int));
        assert(all.take(i + 1).last() == req.messages@[i as int]@);
        match codex_message(&req.messages[i]) {
            Some(m) => {
                json::push_item(&mut r, m);
            },
            None => {},
        }
        i += 1;
    }
    assert(all.take(i as int) =~= all);
    r
}

// ---------------------------------------------------------------------------
// Requests
// ---------------------------------------------------------------------------

/// What the model is told where nothing else is said.
pub const DEFAULT_INSTRUCTIONS: &'static str = "You are an Inductor coding agent working in the user's workspace. Use the provided tools to read, edit, and create files and run commands. Don't describe a tool-call format — just call the tools. Keep the user informed with brief milestone updates, especially before new phases, after tool failures, and before verification. In progress updates, share a concise public reasoning summary: what you are checking, what evidence you found, why the next step follows, and any uncertainty or blocker. Do not reveal hidden chain-of-thought. Keep tool output small: prefer read_file with start_line/end_line over large reads, use focused grep regex patterns instead of broad dumps, and avoid large sed commands. If a tool result says it was truncated and gives a blob_id, call read_blob with a bounded start_byte/limit_bytes range to inspect more without rerunning the tool. Prefer app-owned code first. Inspect dependency or generated code only to resolve a specific unknown; once resolved, stop rereading dependency internals and patch the app code. Once you have a concrete cause, do not restate it in another progress message; apply the fix, run verification, or report a blocker. For file edits, use apply_patch line-aware operations. For pure insertions, use insert_before or insert_after with an adjacent line from a recent read_file result. For replacing existing lines, use exact path, 1-based inclusive start_line/end_line, old text, and new text from a recent read_file result; do not use anchor-only patches.";

/// A tool in a request.
pub open spec fn tool_json(name: ToolName) -> JsonView {
    json::empty_object()
        .with("type"@, JsonView::Text("function"@))
        .with("name"@, JsonView::Text(names::tool_name(name)))
        .with("description"@, JsonView::Text(names::tool_description(name)))
        .with("parameters"@, names::tool_schema(name))
}

/// Whether a tool is offered in a request. Files are changed with `apply_patch`: the
/// tools that it stands for are not offered.
pub open spec fn is_offered(name: ToolName) -> bool {
    match name {
        ToolName::WriteFile | ToolName::EditFile | ToolName::MultiEdit
        | ToolName::ApplyPatchStructured => false,
        _ => true,
    }
}

/// Those of the tools that are offered, in their order.
pub open spec fn offered(tools: Seq<ToolName>) -> Seq<JsonView>
    decreases tools.len(),
{
    if tools.len() == 0 {
        seq![]
    } else if is_offered(tools.last()) {
        offered(tools.drop_last()).push(tool_json(tools.last()))
    } else {
        offered(tools.drop_last())
    }
}

/// The tools in a request: the library's own, and the search that the provider runs by
/// itself.
pub open spec fn tools_json() -> JsonView {
    JsonView::Array(
        offered(names::all_tools()).push(
            json::empty_object().with("type"@, JsonView::Text("web_search"@)),
        ),
    )
}

proof fn lemma_offered(tools: Seq<ToolName>, name: ToolName)
    ensures
        offered(tools).contains(tool_json(name)) == (is_offered(name) && tools.contains(name)),
    decreases tools.len(),
{
    if tools.len() > 0 {
        let before = offered(tools.drop_last());
        lemma_offered(tools.drop_last(), name);
        let last = tools.last();
        assert(tools.contains(name) == (tools.drop_last().contains(name) || last == name)) by {
            assert(tools =~= tools.drop_last().push(last));
            if tools.drop_last().contains(name) {
                let i = choose|i: int|
                    0 <= i < tools.len() - 1 && #[trigger] tools.drop_last()[i] == name;
                assert(tools[i] == name);
            }
            if tools.contains(name) && last != name {
                let i = choose|i: int| 0 <= i < tools.len() && #[trigger] tools[i] == name;
                assert(tools.drop_last()[i] == name);
            }
        }
        if is_offered(last) {
            let all = before.push(tool_json(last));
            assert(all.contains(tool_json(name)) == (before.contains(tool_json(name)) || tool_json(
                last,
            ) == tool_json(name))) by {
                if before.contains(tool_json(name)) {
                    let i = choose|i: int|
                        0 <= i < before.len() && #[trigger] before[i] == tool_json(name);
                    assert(all[i] == tool_json(name));
                }
                assert(all[before.len() as int] == tool_json(last));
            }
            if tool_json(last) == tool_json(name) {
                lemma_tool_json_name(last);
                lemma_tool_json_name(name);
                names::tool_names_are_distinct(last, name);
            }
        }
    }
}

proof fn lemma_tool_json_name(name: ToolName)
    ensures
        json::text_field(tool_json(name), "name"@) == Some(names::tool_name(name)),
{
    reveal_strlit("type");
    reveal_strlit("name");
    reveal_strlit("description");
    reveal_strlit("parameters");
    assert("type"@[0] != "name"@[0]);
    assert("description"@.len() != "name"@.len());
    assert("parameters"@.len() != "name"@.len());
}

/// A request offers the tools that change files through patches, and does not offer those
/// that write, edit or patch a file in another form. Any other tool is offered.
pub proof fn a_request_offers_patches_in_place_of_edits(name: ToolName)
    ensures
        offered(names::all_tools()).contains(tool_json(name)) == !(name == ToolName::WriteFile
            || name == ToolName::EditFile || name == ToolName::MultiEdit || name
            == ToolName::ApplyPatchStructured),
{
    lemma_offered(names::all_tools(), name);
    names::every_tool_is_advertised(name);
}

/// A request, given what it sends of the conversation.
pub open spec fn body_json(req: RequestView, input: Seq<JsonView>) -> JsonView {
    let model = model_of(req.model);
    let body = json::empty_object()
        .with("model"@, JsonView::Text(model))
        .with(
            "instructions"@,
            JsonView::Text(
                match req.system_prompt {
                    Some(s) => s,
                    None => DEFAULT_INSTRUCTIONS@,
                },
            ),
        )
        .with("input"@, JsonView::Array(input))
        .with("tools"@, tools_json())
        .with("tool_choice"@, JsonView::Text("auto"@))
        .with("parallel_tool_calls"@, JsonView::Bool(true))
        .with("stream"@, JsonView::Bool(true))
        .with("store"@, JsonView::Bool(false));
    match json::text_field(req.metadata, "model_effort"@) {
        Some(effort) => body.with(
            "reasoning"@,
            json::empty_object().with("effort"@, JsonView::Text(effort_of(model, effort))),
        ),
        None => body,
    }
}

/// The tools in a request.
pub fn codex_tools() -> (r: Json)
    ensures
        r@ == tools_json(),
{
    let defs = names::tool_definitions();
    let ghost tools = names::all_tools();
    let mut items = json::no_items();
    let mut i: usize = 0;
    while i < defs.len()
        invariant
            i <= defs@.len(),
            tools == names::all_tools(),
            defs@.len() == tools.len(),
            forall|k: int| 0 <= k < defs@.len() ==> (#[trigger] defs@[k]).defines(tools[k]),
            json::array_view(items@) == offered(tools.take(i as int)),
        decreases defs@.len() - i,
    {
        let definition = &defs[i];
        assert(definition.defines(tools[i as int]));
        assert(tools.take(i + 1).drop_last() =~= tools.take(i as int));
        let wanted = match definition.name {
            ToolName::WriteFile | ToolName::EditFile | ToolName::MultiEdit
            | ToolName::ApplyPatchStructured => false,
            _ => true,
        };
        if wanted {
            json::push_item(
                &mut items,
                Json::object()
                    .with("type", Json::text("function"))
                    .with("name", Json::text(definition.name.as_str()))
                    .with("description", Json::text(definition.description))
                    .with("parameters", definition.input_schema.clone()),
            );
        }
        i += 1;
    }
    assert(tools.take(i as int) =~= tools);
    json::push_item(&mut items, Json::object().with("type", Json::text("web_search")));
    Json::Array(items)
}

/// A request, given what it sends of the conversation.
pub fn request_body_with_input(req: &TurnRequest, input: Vec<Json>) -> (r: Json)
    ensures
        r@ == body_json(req@, json::array_view(input@)),
{
    let model = normalize_codex_model(req.model.as_str());
    let instructions = match &req.system_prompt {
        Some(s) => s.clone(),
        None => DEFAULT_INSTRUCTIONS.to_string(),
    };
    let body = Json::object()
        .with("model", Json::text(model.as_str()))
        .with("instructions", Json::text(instructions.as_str()))
        .with("input", Json::Array(input))
        .with("tools", codex_tools())
        .with("tool_choice", Json::text("auto"))
        .with("parallel_tool_calls", Json::Bool(true))
        .with("stream", Json::Bool(true))
        .with("store", Json::Bool(false));
    match req.metadata.get_str("model_effort") {
        Some(effort) => {
            let e = normalize_codex_reasoning_effort(model.as_str(), effort);
            body.with("reasoning", Json::object().with("effort", Json::text(e)))
        },
        None => body,
    }
}

/// The first request of a turn.
pub fn request_body(req: &TurnRequest) -> (r: Json)
    ensures
        r@ == body_json(req@, input_of(req@)),
{
    request_body_with_input(req, codex_input_messages(req))
}

/// The address of the provider, given where it is.
pub fn responses_url(base_url: &str) -> (r: String)
    ensures
        r@ == text::trim_end(base_url@, text::CharClass::Just('/')) + "/responses"@,
{
    text::cat2(models::trim_trailing_slash(base_url).as_str(), "/responses")
}

// ---------------------------------------------------------------------------
// Laws
// ---------------------------------------------------------------------------

/// Whether an effort is one that the provider knows.
pub open spec fn is_effort(e: Seq<char>) -> bool {
    e == "none"@ || e == "minimal"@ || e == "low"@ || e == "medium"@ || e == "high"@ || e
        == "xhigh"@
}

/// Whatever is asked for, the provider gets an effort that it knows.
pub proof fn efforts_are_known(model: Seq<char>, effort: Seq<char>)
    ensures
        is_effort(effort_of(model, effort)),
{
}

/// No message of a request has the role of a tool, which the provider does not know.
pub proof fn roles_are_known(messages: Seq<ModelMessageView>, i: int)
    requires
        0 <= i < messages_json(messages).len(),
    ensures
        ({
            let role = json::text_field(messages_json(messages)[i], "role"@);
            role == Some("assistant"@) || role == Some("system"@) || role == Some("developer"@)
                || role == Some("user"@)
        }),
    decreases messages.len(),
{
    reveal_strlit("role");
    reveal_strlit("content");
    assert("role"@.len() != "content"@.len());
    if messages.len() > 0 {
        let before = messages_json(messages.drop_last());
        if i < before.len() {
            roles_are_known(messages.drop_last(), i);
        }
    }
}

proof fn lemma_body_names()
    ensures
        "model"@.len() == 5 && "model"@[0] == 'm',
        "instructions"@.len() == 12,
        "input"@.len() == 5 && "input"@[0] == 'i',
        "tools"@.len() == 5 && "tools"@[0] == 't',
        "tool_choice"@.len() == 11,
        "parallel_tool_calls"@.len() == 19,
        "stream"@.len() == 6 && "stream"@[0] == 's',
        "store"@.len() == 5 && "store"@[0] == 's',
        "reasoning"@.len() == 9,
        "effort"@.len() == 6 && "effort"@[0] == 'e',
        "type"@.len() == 4 && "type"@[0] == 't' && "type"@[1] == 'y',
        "text"@.len() == 4 && "text"@[0] == 't' && "text"@[1] == 'e',
        "annotations"@.len() == 11 && "annotations"@[0] == 'a',
        "image_url"@.len() == 9 && "image_url"@[0] == 'i',
        "detail"@.len() == 6 && "detail"@[0] == 'd',
        "role"@.len() == 4 && "role"@[0] == 'r',
        "content"@.len() == 7,
{
    reveal_strlit("model");
    reveal_strlit("instructions");
    reveal_strlit("input");
    reveal_strlit("tools");
    reveal_strlit("tool_choice");
    reveal_strlit("parallel_tool_calls");
    reveal_strlit("stream");
    reveal_strlit("store");
    reveal_strlit("reasoning");
    reveal_strlit("effort");
    reveal_strlit("type");
    reveal_strlit("text");
    reveal_strlit("annotations");
    reveal_strlit("image_url");
    reveal_strlit("detail");
    reveal_strlit("role");
    reveal_strlit("content");
}

/// A request holds the model, the instructions and the conversation that it is made with,
/// asks for a stream that is not stored, and names an effort exactly where one is set.
pub proof fn a_request_holds_what_it_is_made_with(req: RequestView, input: Seq<JsonView>)
    ensures
        ({
            let body = body_json(req, input);
            let effort = json::text_field(req.metadata, "model_effort"@);
            &&& json::text_field(body, "model"@) == Some(model_of(req.model))
            &&& req.system_prompt matches Some(s) ==> json::text_field(body, "instructions"@)
                == Some(s)
            &&& json::items_field(body, "input"@) == Some(input)
            &&& json::text_field(body, "tool_choice"@) == Some("auto"@)
            &&& json::bool_field(body, "parallel_tool_calls"@) == Some(true)
            &&& json::bool_field(body, "stream"@) == Some(true)
            &&& json::bool_field(body, "store"@) == Some(false)
            &&& json::field(body, "reasoning"@) is Some <==> effort is Some
            &&& effort matches Some(e) ==> json::text_field(
                json::field(body, "reasoning"@)->0,
                "effort"@,
            ) == Some(effort_of(model_of(req.model), e))
        }),
{
    lemma_body_names();
}

/// The conversation is that of the request: without messages it is the prompt with its
/// pictures, from the user.
pub proof fn a_prompt_is_sent_as_the_users(req: RequestView)
    requires
        req.messages.len() == 0,
    ensures
        ({
            let sent = input_of(req);
            let content = json::items_field(sent[0], "content"@)->0;
            &&& sent.len() == 1
            &&& json::text_field(sent[0], "role"@) == Some("user"@)
            &&& json::items_field(sent[0], "content"@) is Some
            &&& content.len() == req.images.len() + 1
            &&& json::text_field(content[0], "type"@) == Some("input_text"@)
            &&& json::text_field(content[0], "text"@) == Some(req.prompt)
            &&& forall|i: int|
                0 <= i < req.images.len() ==> json::text_field(
                    #[trigger] content[i + 1],
                    "type"@,
                ) == Some("input_image"@) && json::text_field(content[i + 1], "image_url"@) == Some(
                    "data:"@ + req.images[i].mime_type + ";base64,"@ + req.images[i].base64_data,
                )
        }),
{
    lemma_body_names();
    let shown = req.images.map_values(|i: ImageView| input_image(i));
    assert forall|i: int| 0 <= i < req.images.len() implies (seq![input_text(req.prompt)]
        + shown)[i + 1] == input_image(req.images[i]) by {
        assert(shown[i] == input_image(req.images[i]));
    }
}

/// A part of a message is sent as it is: text as output of the assistant and as input of
/// anyone else, a picture with its data.
pub proof fn parts_are_sent_as_they_are(text: Seq<char>, image: ImageView, assistant: bool)
    ensures
        json::text_field(part_json(PartView::Text { text }, assistant), "text"@) == Some(text),
        json::text_field(part_json(PartView::Text { text }, true), "type"@) == Some(
            "output_text"@,
        ),
        json::text_field(part_json(PartView::Text { text }, false), "type"@) == Some(
            "input_text"@,
        ),
        json::text_field(part_json(PartView::Image { image }, assistant), "type"@) == Some(
            "input_image"@,
        ),
        json::text_field(part_json(PartView::Image { image }, assistant), "image_url"@) == Some(
            "data:"@ + image.mime_type + ";base64,"@ + image.base64_data,
        ),
{
    lemma_body_names();
}

/// Messages are sent in order, each under its role and with all of its parts; those that
/// hold nothing but white space are left out.
pub proof fn messages_are_sent_in_order(messages: Seq<ModelMessageView>, m: ModelMessageView)
    ensures
        ({
            let before = messages_json(messages);
            let after = messages_json(messages.push(m));
            let parts = parts_of(m);
            &&& (forall|i: int|
                0 <= i < parts.len() ==> (#[trigger] parts[i] matches PartView::Text { text }
                    && text::trimmed(text).len() == 0)) <==> after == before
            &&& after != before ==> {
                &&& after.len() == before.len() + 1
                &&& after.drop_last() == before
                &&& json::text_field(after.last(), "role"@) == Some(role_of(m.role))
                &&& json::items_field(after.last(), "content"@) is Some
                &&& json::items_field(after.last(), "content"@)->0.len() == parts.len()
                &&& forall|i: int|
                    0 <= i < parts.len() ==> #[trigger] json::items_field(
                        after.last(),
                        "content"@,
                    )->0[i] == part_json(parts[i], role_of(m.role) == "assistant"@)
            }
        }),
{
    lemma_body_names();
    assert(messages.push(m).drop_last() =~= messages);
    let parts = parts_of(m);
    assert(all_empty(parts) <==> forall|i: int|
        0 <= i < parts.len() ==> (#[trigger] parts[i] matches PartView::Text { text }
            && text::trimmed(text).len() == 0)) by {
        if all_empty(parts) {
            assert forall|i: int| 0 <= i < parts.len() implies (
            #[trigger] parts[i] matches PartView::Text { text } && text::trimmed(text).len()
                == 0) by {
                assert(is_empty_text(parts[i]));
            }
        }
    }
    let after = messages_json(messages.push(m));
    if message_json(m) is Some {
        assert(after.len() != messages_json(messages).len());
        assert(after.drop_last() =~= messages_json(messages));
    }
}

/// The roles of the assistant, the system and the developer are kept, in whatever case they
/// are written, and any other message is the user's; what a tool said is labelled as such.
pub proof fn roles_are_kept(m: ModelMessageView, text: Seq<char>)
    ensures
        text::ascii_lower(m.role) == "assistant"@ ==> role_of(m.role) == "assistant"@ && parts_of(m)
            == m.parts,
        text::ascii_lower(m.role) == "system"@ ==> role_of(m.role) == "system"@ && parts_of(m)
            == m.parts,
        text::ascii_lower(m.role) == "user"@ ==> role_of(m.role) == "user"@ && parts_of(m)
            == m.parts,
        text::ascii_lower(m.role) == "tool"@ ==> role_of(m.role) == "user"@,
        text::ascii_lower(m.role) == "tool"@ && m.parts == seq![PartView::Text { text }]
            ==> parts_of(m) == seq![PartView::Text { text: "Tool:\n"@ + text }],
{
    reveal_strlit("assistant");
    reveal_strlit("system");
    reveal_strlit("developer");
    reveal_strlit("user");
    reveal_strlit("tool");
    assert("assistant"@.len() == 9 && "system"@.len() == 6 && "developer"@.len() == 9
        && "user"@.len() == 4 && "tool"@.len() == 4);
    assert("user"@[0] == 'u' && "tool"@[0] == 't');
    reveal_strlit("Tool");
    reveal_strlit(":\n");
    reveal_strlit("Tool:\n");
    assert("Tool"@ + ":\n"@ =~= "Tool:\n"@);
    let one = seq![PartView::Text { text }];
    assert(one.update(0, PartView::Text { text: "Tool:\n"@ + text }) =~= seq![
        PartView::Text { text: "Tool:\n"@ + text },
    ]);
}

/// A model that is not one of the old names is asked for as it is named; the old names and
/// no name at all stand for the newest one.
pub proof fn models_are_asked_for_by_name(name: Seq<char>)
    ensures
        ({
            let m = text::trimmed(name);
            if m.len() == 0 || m == "gpt-5"@ || m == "gpt-5-mini"@ || m == "gpt-4.1"@ {
                model_of(name) == "gpt-5.5"@
            } else {
                model_of(name) == m
            }
        }),
{
    reveal_strlit("");
    let m = text::trimmed(name);
    if m.len() == 0 {
        assert(m =~= ""@);
    }
}

} // verus!
