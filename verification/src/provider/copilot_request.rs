//! The requests that are sent to the provider that speaks the chat completions API.
use vstd::prelude::*;

use crate::json;
use crate::json::{Json, JsonView};
use crate::provider::bridge;
use crate::provider::codex_request;
use crate::provider::models;
use crate::provider::models::{ModelInfo, ModelView};
use crate::provider::sse;
use crate::runtime::prompt;
use crate::runtime::prompt::{
    ImageAttachment, ImageView, MessagePart, ModelMessage, ModelMessageView, PartView, RequestView,
    TurnRequest,
};
use crate::text;
use crate::text::CharClass;
use crate::tools::names;
use crate::tools::names::ToolName;

verus! {

// ---------------------------------------------------------------------------
// Models
// ---------------------------------------------------------------------------

/// The model that is asked for under a name.
pub open spec fn model_of(name: Seq<char>) -> Seq<char> {
    if text::trimmed(name).len() == 0 {
        "gpt-4.1"@
    } else {
        text::trimmed(name)
    }
}

/// The model that is asked for under a name.
pub fn normalize_copilot_model(model: &str) -> (r: String)
    ensures
        r@ == model_of(model@),
{
    let m = text::trim(model);
    if text::is_blank_len(&m) {
        "gpt-4.1".to_string()
    } else {
        m
    }
}

/// The models that are offered where the provider names none.
pub open spec fn own_models() -> Seq<ModelView> {
    seq![
        models::named_model("gpt-4.1"@, "GPT-4.1"@),
        models::named_model(models::vendor() + "-sonnet-4"@, models::brand() + " Sonnet 4"@),
        models::named_model("o4-mini"@, "o4-mini"@),
    ]
}

/// The models that are offered where the provider names none, with those that the
/// environment names.
pub open spec fn catalog(env: Option<Seq<char>>) -> Seq<ModelView> {
    models::extended(own_models(), models::ids_of(env))
}

/// The models that are offered where the provider names none.
pub fn copilot_model_catalog(env: Option<&str>) -> (r: Vec<ModelInfo>)
    ensures
        models::model_views(r@) == catalog(
            match env {
                Some(e) => Some(e@),
                None => None,
            },
        ),
{
    let mut r: Vec<ModelInfo> = Vec::new();
    r.push(ModelInfo::named("gpt-4.1", "GPT-4.1"));
    let id = text::cat2(models::vendor_name().as_str(), "-sonnet-4");
    let name = text::cat2(models::brand_name().as_str(), " Sonnet 4");
    r.push(ModelInfo::named(id.as_str(), name.as_str()));
    r.push(ModelInfo::named("o4-mini", "o4-mini"));
    assert(models::model_views(r@) =~= own_models());
    let ids = models::read_ids_of(env);
    models::extend_models(&mut r, &ids);
    r
}

/// Whether the value is the word `chat`.
pub open spec fn is_chat(v: JsonView) -> bool {
    v matches JsonView::Text(t) && text::ascii_lower(t) == text::ascii_lower("chat"@)
}

/// Whether one of the values is the word `chat`.
pub open spec fn has_chat(items: Seq<JsonView>) -> bool {
    exists|i: int| 0 <= i < items.len() && is_chat(#[trigger] items[i])
}

/// Whether a model that the provider lists can be used for chats.
pub open spec fn is_chat_capable(model: JsonView) -> bool {
    let enabled = match json::field(model, "model_policy"@) {
        Some(p) => json::bool_field(p, "enabled"@) != Some(false),
        None => true,
    };
    let chats = match json::items_field(model, "capabilities"@) {
        Some(items) => has_chat(items),
        None => true,
    };
    enabled && chats
}

/// A model that the provider lists, if it has an id and can be used for chats.
pub open spec fn listed_model(model: JsonView) -> Option<ModelView> {
    if is_chat_capable(model) {
        match json::text_field(model, "id"@) {
            Some(id) => Some(
                ModelView {
                    id,
                    display_name: {
                        let name = match json::field(model, "name"@) {
                            Some(n) => json::as_text(n),
                            None => json::text_field(model, "display_name"@),
                        };
                        match name {
                            Some(n) => n,
                            None => id,
                        }
                    },
                    context_window: match json::field(model, "model_picker_context_window"@) {
                        Some(_) => bridge::count_field(model, "model_picker_context_window"@),
                        None => bridge::count_field(model, "context_window"@),
                    },
                },
            ),
            None => None,
        }
    } else {
        None
    }
}

pub open spec fn listed_models(items: Seq<JsonView>) -> Seq<ModelView>
    decreases items.len(),
{
    if items.len() == 0 {
        seq![]
    } else {
        let before = listed_models(items.drop_last());
        match listed_model(items.last()) {
            Some(m) => before.push(m),
            None => before,
        }
    }
}

/// The models that the provider's answer lists; where there is none, those of the catalog.
pub open spec fn offered(answer: JsonView, env: Option<Seq<char>>) -> Seq<ModelView> {
    let listed = match json::items_field(answer, "data"@) {
        Some(items) => listed_models(items),
        None => seq![],
    };
    if listed.len() == 0 {
        catalog(env)
    } else {
        listed
    }
}

fn holds_chat(items: &Vec<Json>) -> (r: bool)
    ensures
        r == has_chat(json::array_view(items@)),
{
    let ghost all = json::array_view(items@);
    proof {
        json::lemma_array_view(items@);
    }
    let mut i: usize = 0;
    while i < items.len()
        invariant
            i <= items@.len(),
            all == json::array_view(items@),
            all.len() == items@.len(),
            forall|k: int| 0 <= k < items@.len() ==> #[trigger] all[k] == items@[k]@,
            forall|k: int| 0 <= k < i ==> !is_chat(#[trigger] all[k]),
        decreases items@.len() - i,
    {
        assert(all[i as int] == items@[i as int]@);
        match items[i].as_str() {
            Some(s) => {
                if text::eq_ignore_ascii_case(s, "chat") {
                    assert(is_chat(all[i as int]));
                    return true;
                }
            },
            None => {},
        }
        i += 1;
    }
    false
}

/// Whether a model that the provider lists can be used for chats.
pub fn copilot_model_is_chat_capable(model: &Json) -> (r: bool)
    ensures
        r == is_chat_capable(model@),
{
    let enabled = match model.get("model_policy") {
        Some(p) => match p.get_bool("enabled") {
            Some(b) => b,
            None => true,
        },
        None => true,
    };
    let chats = match model.get_array("capabilities") {
        Some(items) => holds_chat(items),
        None => true,
    };
    enabled && chats
}

fn read_model(model: &Json) -> (r: Option<ModelInfo>)
    ensures
        match r {
            Some(m) => listed_model(model@) == Some(m@),
            None => listed_model(model@) is None,
        },
{
    if !copilot_model_is_chat_capable(model) {
        return None;
    }
    let id = match model.get_str("id") {
        Some(id) => id,
        None => {
            return None;
        },
    };
    let name = match model.get("name") {
        Some(n) => n.as_str(),
        None => model.get_str("display_name"),
    };
    let display_name = match name {
        Some(n) => n,
        None => id,
    };
    let context_window = match model.get("model_picker_context_window") {
        Some(_) => model.get_u64("model_picker_context_window"),
        None => model.get_u64("context_window"),
    };
    Some(
        ModelInfo { id: id.to_string(), display_name: display_name.to_string(), context_window },
    )
}

/// The models that the provider's answer lists; where there is none, those of the catalog.
pub fn list_models(answer: &Json, env: Option<&str>) -> (r: Vec<ModelInfo>)
    ensures
        models::model_views(r@) == offered(
            answer@,
            match env {
                Some(e) => Some(e@),
                None => None,
            },
        ),
{
    let mut r: Vec<ModelInfo> = Vec::new();
    assert(models::model_views(r@) =~= seq![]);
    match answer.get_array("data") {
        Some(items) => {
            let ghost all = json::array_view(items@);
            proof {
                json::lemma_array_view(items@);
            }
            let mut i: usize = 0;
            assert(all.take(0) =~= seq![]);
            while i < items.len()
                invariant
                    i <= items@.len(),
                    all == json::array_view(items@),
                    all.len() == items@.len(),
                    forall|k: int| 0 <= k < items@.len() ==> #[trigger] all[k] == items@[k]@,
                    models::model_views(r@) == listed_models(all.take(i as int)),
                decreases items@.len() - i,
            {
                assert(all.take(i + 1).drop_last() =~= all.take(i as int));
                assert(all.take(i + 1).last() == items@[i as int]@);
                match read_model(&items[i]) {
                    Some(m) => {
                        models::push_model(&mut r, m);
                    },
                    None => {},
                }
                i += 1;
            }
            assert(all.take(i as int) =~= all);
        },
        None => {},
    }
    assert(models::model_views(r@).len() == r@.len());
    if r.len() == 0 {
        copilot_model_catalog(env)
    } else {
        r
    }
}

// ---------------------------------------------------------------------------
// Authorization
// ---------------------------------------------------------------------------

/// A token with which the provider is asked, and when it expires, in seconds of Unix time.
#[derive(Debug)]
pub struct CopilotBearerToken {
    pub token: String,
    pub expires_at: u64,
}

/// The token that has been got before, unless it expires within a minute.
pub fn cached_bearer_token(cache: Option<&CopilotBearerToken>, now: u64) -> (r: Option<String>)
    ensures
        text::opt(r) == match cache {
            Some(t) => if t.expires_at > (if now + 60 > u64::MAX {
                u64::MAX as int
            } else {
                now + 60
            }) {
                Some(t.token@)
            } else {
                None
            },
            None => None,
        },
{
    match cache {
        Some(t) => if t.expires_at > now.saturating_add(60) {
            Some(t.token.clone())
        } else {
            None
        },
        None => None,
    }
}

/// The token in the answer to an exchange of tokens: a record of the token and of when it
/// expires.
pub open spec fn token_in(v: JsonView) -> Option<(Seq<char>, nat)> {
    match (json::record_field(v, 0, 2, "token"@), json::record_field(v, 1, 2, "expires_at"@)) {
        (Some(JsonView::Text(token)), Some(JsonView::Unsigned(expires_at))) => Some(
            (token, expires_at),
        ),
        _ => None,
    }
}

/// The token in the answer to an exchange of tokens.
pub fn read_token(value: &Json) -> (r: Option<CopilotBearerToken>)
    ensures
        match r {
            Some(t) => token_in(value@) == Some((t.token@, t.expires_at as nat)),
            None => token_in(value@) is None,
        },
{
    match (value.record_member(0, 2, "token"), value.record_member(1, 2, "expires_at")) {
        (Some(Json::Text(token)), Some(Json::Unsigned(expires_at))) => Some(
            CopilotBearerToken { token: token.clone(), expires_at: *expires_at },
        ),
        _ => None,
    }
}

/// The editor that the provider is told of where nothing else is said.
pub const DEFAULT_EDITOR_VERSION: &'static str = "vscode/1.95.0";

/// The integration that the provider is told of where nothing else is said.
pub const DEFAULT_INTEGRATION_ID: &'static str = "vscode-chat";

/// The headers of every request, by their names, but for the one that authorizes it.
pub open spec fn common_headers(editor: Option<Seq<char>>, integration: Option<Seq<char>>) -> Seq<
    (Seq<char>, Seq<char>),
> {
    seq![
        ("accept"@, "application/json"@),
        ("content-type"@, "application/json"@),
        ("user-agent"@, "GithubCopilot/1.0"@),
        (
            "editor-version"@,
            match editor {
                Some(e) => e,
                None => DEFAULT_EDITOR_VERSION@,
            },
        ),
        (
            "copilot-integration-id"@,
            match integration {
                Some(i) => i,
                None => DEFAULT_INTEGRATION_ID@,
            },
        ),
    ]
}

/// The headers of every request. The environment may name the editor and the integration.
pub fn shared_headers(editor: Option<String>, integration: Option<String>) -> (r: Vec<
    (&'static str, String),
>)
    ensures
        r@.len() == 5,
        forall|i: int|
            0 <= i < 5 ==> ((#[trigger] r@[i]).0@, r@[i].1@) == common_headers(
                text::opt(editor),
                text::opt(integration),
            )[i],
{
    let mut r: Vec<(&'static str, String)> = Vec::new();
    r.push(("accept", "application/json".to_string()));
    r.push(("content-type", "application/json".to_string()));
    r.push(("user-agent", "GithubCopilot/1.0".to_string()));
    r.push(
        (
            "editor-version",
            match editor {
                Some(e) => e,
                None => DEFAULT_EDITOR_VERSION.to_string(),
            },
        ),
    );
    r.push(
        (
            "copilot-integration-id",
            match integration {
                Some(i) => i,
                None => DEFAULT_INTEGRATION_ID.to_string(),
            },
        ),
    );
    r
}

/// The beginning of a response's body, with marks behind the words that secrets follow.
pub open spec fn redacted(body: Seq<char>) -> Seq<char> {
    text::replace(sse::redacted(body), "token "@, "token <redacted>"@)
}

/// The beginning of a response's body, as it is told in an error.
pub fn redact_error_body(body: &str) -> (r: String)
    ensures
        r@ == redacted(body@),
{
    proof {
        reveal_strlit("token ");
    }
    let r = sse::redact_error_body(body);
    text::replace_text(r.as_str(), "token ", "token <redacted>")
}

/// What is told when a request that precedes a turn is refused.
pub fn refusal(what: &str, status: &str, body: &str) -> (r: String)
    ensures
        r@ == what@ + " failed with HTTP "@ + status@ + ": "@ + redacted(body@),
{
    text::cat5(what, " failed with HTTP ", status, ": ", redact_error_body(body).as_str())
}

/// The value that the body of an answer holds, or why there is none: the request was
/// refused, or the body is no JSON.
pub open spec fn answer_in(
    what: Seq<char>,
    success: bool,
    status: Seq<char>,
    body: Seq<char>,
) -> Result<JsonView, Seq<char>> {
    if success {
        json::json_parse(body)
    } else {
        Err(what + " failed with HTTP "@ + status + ": "@ + redacted(body))
    }
}

fn read_answer(what: &str, success: bool, status: &str, body: &str) -> (r: Result<Json, String>)
    ensures
        match r {
            Ok(v) => answer_in(what@, success, status@, body@) == Ok::<JsonView, Seq<char>>(v@),
            Err(e) => answer_in(what@, success, status@, body@) == Err::<JsonView, Seq<char>>(e@),
        },
{
    if success {
        json::parse(body)
    } else {
        Err(refusal(what, status, body))
    }
}

/// The token that the answer to an exchange of tokens holds, or why there is none.
pub fn token_answer(success: bool, status: &str, body: &str) -> (r: Result<
    CopilotBearerToken,
    String,
>)
    ensures
        match (r, answer_in("copilot token exchange"@, success, status@, body@)) {
            (Ok(t), Ok(v)) => token_in(v) == Some((t.token@, t.expires_at as nat)),
            (Err(e), Ok(v)) => token_in(v) is None && e@ == "the answer holds no token"@,
            (Err(e), Err(cause)) => e@ == cause,
            (Ok(_), Err(_)) => false,
        },
{
    match read_answer("copilot token exchange", success, status, body) {
        Err(e) => Err(e),
        Ok(v) => match read_token(&v) {
            Some(t) => Ok(t),
            None => Err("the answer holds no token".to_string()),
        },
    }
}

/// The models that the answer to the request for them lists, or why there are none.
pub fn models_answer(success: bool, status: &str, body: &str, env: Option<&str>) -> (r: Result<
    Vec<ModelInfo>,
    String,
>)
    ensures
        match (r, answer_in("copilot model list"@, success, status@, body@)) {
            (Ok(found), Ok(v)) => models::model_views(found@) == offered(
                v,
                match env {
                    Some(e) => Some(e@),
                    None => None,
                },
            ),
            (Err(e), Err(cause)) => e@ == cause,
            _ => false,
        },
{
    match read_answer("copilot model list", success, status, body) {
        Err(e) => Err(e),
        Ok(v) => Ok(list_models(&v, env)),
    }
}

/// The address of a service, given where it is and its path there.
pub fn service_url(base_url: &str, path: &str) -> (r: String)
    ensures
        r@ == text::trim_end(base_url@, CharClass::Just('/')) + path@,
{
    text::cat2(models::trim_trailing_slash(base_url).as_str(), path)
}

// ---------------------------------------------------------------------------
// Messages
// ---------------------------------------------------------------------------

pub open spec fn text_part(s: Seq<char>) -> JsonView {
    json::empty_object().with("type"@, JsonView::Text("text"@)).with("text"@, JsonView::Text(s))
}

pub open spec fn image_part(image: ImageView) -> JsonView {
    json::empty_object().with("type"@, JsonView::Text("image_url"@)).with(
        "image_url"@,
        json::empty_object().with("url"@, JsonView::Text(codex_request::data_url(image))),
    )
}

/// A part of a message in a request.
pub open spec fn part_json(part: PartView) -> JsonView {
    match part {
        PartView::Text { text } => text_part(text),
        PartView::Image { image } => image_part(image),
    }
}

/// The role of a message in a request.
pub open spec fn role_of(role: Seq<char>) -> Seq<char> {
    let r = text::ascii_lower(role);
    if r == "assistant"@ {
        "assistant"@
    } else if r == "system"@ || r == "developer"@ {
        "system"@
    } else {
        "user"@
    }
}

/// A message in a request, unless it is blank.
pub open spec fn message_json(m: ModelMessageView) -> Option<JsonView> {
    if codex_request::all_empty(m.parts) {
        None
    } else {
        Some(
            json::empty_object().with("role"@, JsonView::Text(role_of(m.role))).with(
                "content"@,
                JsonView::Array(m.parts.map_values(|p: PartView| part_json(p))),
            ),
        )
    }
}

/// The messages in a request, without those that are blank.
pub open spec fn messages_json(messages: Seq<ModelMessageView>) -> Seq<JsonView>
    decreases messages.len(),
{
    if messages.len() == 0 {
        seq![]
    } else {
        let before = messages_json(messages.drop_last());
        match message_json(messages.last()) {
            Some(m) => before.push(m),
            None => before,
        }
    }
}

/// A message of one text.
pub open spec fn plain_message(role: Seq<char>, content: Seq<char>) -> JsonView {
    json::empty_object().with("role"@, JsonView::Text(role)).with(
        "content"@,
        JsonView::Text(content),
    )
}

/// The prompt and its pictures as a message of a request.
pub open spec fn prompt_json(prompt: Seq<char>, images: Seq<ImageView>) -> JsonView {
    json::empty_object().with("role"@, JsonView::Text("user"@)).with(
        "content"@,
        JsonView::Array(
            seq![text_part(prompt)] + images.map_values(|i: ImageView| image_part(i)),
        ),
    )
}

/// What a conversation begins with: the system prompt, where there is one, and the
/// messages, or, where there are none, the prompt.
pub open spec fn conversation(req: RequestView) -> Seq<JsonView> {
    let first = match req.system_prompt {
        Some(s) => seq![plain_message("system"@, s)],
        None => seq![],
    };
    if req.messages.len() == 0 {
        first.push(prompt_json(req.prompt, req.images))
    } else {
        first + messages_json(req.messages)
    }
}

fn text_json(s: &str) -> (r: Json)
    ensures
        r@ == text_part(s@),
{
    Json::object().with("type", Json::text("text")).with("text", Json::text(s))
}

fn image_json(image: &ImageAttachment) -> (r: Json)
    ensures
        r@ == image_part(image@),
{
    let url = codex_request::image_url(image);
    Json::object().with("type", Json::text("image_url")).with(
        "image_url",
        Json::object().with("url", Json::text(url.as_str())),
    )
}

/// A part of a message in a request.
pub fn copilot_part(part: &MessagePart) -> (r: Json)
    ensures
        r@ == part_json(part@),
{
    match part {
        MessagePart::Text { text } => text_json(text.as_str()),
        MessagePart::Image { image } => image_json(image),
    }
}

/// The role of a message in a request.
pub fn copilot_role(role: &str) -> (r: &'static str)
    ensures
        r@ == role_of(role@),
{
    let lower = text::to_ascii_lowercase(role);
    if text::same(lower.as_str(), "assistant") {
        "assistant"
    } else if text::same(lower.as_str(), "system") || text::same(lower.as_str(), "developer") {
        "system"
    } else {
        "user"
    }
}

/// A message in a request, unless it is blank.
pub fn copilot_message(message: &ModelMessage) -> (r: Option<Json>)
    ensures
        match r {
            Some(j) => message_json(message@) == Some(j@),
            None => message_json(message@) is None,
        },
{
    if codex_request::parts_are_empty(&message.parts) {
        return None;
    }
    let ghost all = message@.parts;
    let ghost told = all.map_values(|p: PartView| part_json(p));
    let mut content = json::no_items();
    let mut i: usize = 0;
    assert(told.take(0) =~= seq![]);
    while i < message.parts.len()
        invariant
            i <= message.parts@.len(),
            all == prompt::part_views(message.parts@),
            told == all.map_values(|p: PartView| part_json(p)),
            json::array_view(content@) == told.take(i as int),
        decreases message.parts@.len() - i,
    {
        json::push_item(&mut content, copilot_part(&message.parts[i]));
        assert(told.take(i + 1) =~= told.take(i as int).push(told[i as int]));
        i += 1;
    }
    assert(told.take(i as int) =~= told);
    let role = copilot_role(message.role.as_str());
    Some(Json::object().with("role", Json::text(role)).with("content", Json::Array(content)))
}

fn prompt_message(req: &TurnRequest) -> (r: Json)
    ensures
        r@ == prompt_json(req@.prompt, req@.images),
{
    let ghost told = seq![text_part(req@.prompt)] + req@.images.map_values(
        |i: ImageView| image_part(i),
    );
    let mut content = json::no_items();
    json::push_item(&mut content, text_json(req.prompt.as_str()));
    assert(json::array_view(content@) =~= told.take(1));
    let mut i: usize = 0;
    while i < req.images.len()
        invariant
            i <= req.images@.len(),
            told == seq![text_part(req@.prompt)] + req@.images.map_values(
                |i: ImageView| image_part(i),
            ),
            json::array_view(content@) == told.take(i + 1),
        decreases req.images@.len() - i,
    {
        json::push_item(&mut content, image_json(&req.images[i]));
        assert(told.take(i + 2) =~= told.take(i + 1).push(told[i + 1]));
        i += 1;
    }
    assert(told.take(i + 1) =~= told);
    Json::object().with("role", Json::text("user")).with("content", Json::Array(content))
}

/// A message of one text.
pub fn message_of(role: &str, content: &str) -> (r: Json)
    ensures
        r@ == plain_message(role@, content@),
{
    Json::object().with("role", Json::text(role)).with("content", Json::text(content))
}

/// What a conversation begins with.
pub fn copilot_messages(req: &TurnRequest) -> (r: Vec<Json>)
    ensures
        json::array_view(r@) == conversation(req@),
{
    let mut r = json::no_items();
    match &req.system_prompt {
        Some(s) => {
            json::push_item(&mut r, message_of("system", s.as_str()));
        },
        None => {},
    }
    let ghost first = json::array_view(r@);
    assert(first =~= match req@.system_prompt {
        Some(s) => seq![plain_message("system"@, s)],
        None => seq![],
    });
    if req.messages.len() == 0 {
        json::push_item(&mut r, prompt_message(req));
        return r;
    }
    let ghost all = req@.messages;
    let mut i: usize = 0;
    assert(json::array_view(r@) =~= first + messages_json(all.take(0)));
    while i < req.messages.len()
        invariant
            i <= req.messages@.len(),
            all == req@.messages,
            json::array_view(r@) == first + messages_json(all.take(i as int)),
        decreases req.messages@.len() - i,
    {
        assert(all.take(i + 1).drop_last() =~= all.take(i as int));
        assert(all.take(i + 1).last() == req.messages@[i as int]@);
        match copilot_message(&req.messages[i]) {
            Some(m) => {
                json::push_item(&mut r, m);
                assert(json::array_view(r@) =~= first + messages_json(all.take(i + 1)));
            },
            None => {},
        }
        i += 1;
    }
    assert(all.take(i as int) =~= all);
    r
}

// ---------------------------------------------------------------------------
// Requests
// ---------------------------------------------------------------------------

/// A tool in a request.
pub open spec fn tool_json(name: ToolName) -> JsonView {
    json::empty_object().with("type"@, JsonView::Text("function"@)).with(
        "function"@,
        json::empty_object()
            .with("name"@, JsonView::Text(names::tool_name(name)))
            .with("description"@, JsonView::Text(names::tool_description(name)))
            .with("parameters"@, names::tool_schema(name)),
    )
}

/// The tools in a request.
pub open spec fn tools_json(allowed: Seq<Seq<char>>) -> Seq<JsonView> {
    bridge::allowed_tools(names::all_tools(), allowed).map_values(|t: ToolName| tool_json(t))
}

/// The tools in a request.
pub fn copilot_tools(tool_names: &Vec<String>) -> (r: Vec<Json>)
    ensures
        json::array_view(r@) == tools_json(text::views(tool_names@)),
{
    let defs = bridge::allowed_definitions(tool_names);
    let ghost tools = bridge::allowed_tools(names::all_tools(), text::views(tool_names@));
    let ghost told = tools.map_values(|t: ToolName| tool_json(t));
    let mut items = json::no_items();
    let mut i: usize = 0;
    assert(told.take(0) =~= seq![]);
    while i < defs.len()
        invariant
            i <= defs@.len(),
            defs@.len() == tools.len(),
            forall|k: int| 0 <= k < defs@.len() ==> (#[trigger] defs@[k]).defines(tools[k]),
            told == tools.map_values(|t: ToolName| tool_json(t)),
            json::array_view(items@) == told.take(i as int),
        decreases defs@.len() - i,
    {
        let definition = &defs[i];
        assert(definition.defines(tools[i as int]));
        json::push_item(
            &mut items,
            Json::object().with("type", Json::text("function")).with(
                "function",
                Json::object()
                    .with("name", Json::text(definition.name.as_str()))
                    .with("description", Json::text(definition.description))
                    .with("parameters", definition.input_schema.clone()),
            ),
        );
        assert(told.take(i + 1) =~= told.take(i as int).push(told[i as int]));
        i += 1;
    }
    assert(told.take(i as int) =~= told);
    items
}

/// A request, given the conversation and the number that stands for no randomness.
pub open spec fn body_json(req: RequestView, messages: Seq<JsonView>, zero: JsonView) -> JsonView {
    let body = json::empty_object()
        .with("model"@, JsonView::Text(model_of(req.model)))
        .with("messages"@, JsonView::Array(messages))
        .with("stream"@, JsonView::Bool(true))
        .with("temperature"@, zero);
    let tools = tools_json(req.tool_names);
    if tools.len() > 0 {
        body.with("tools"@, JsonView::Array(tools)).with(
            "tool_choice"@,
            JsonView::Text("auto"@),
        )
    } else {
        body
    }
}

/// A request, given the conversation and the number that stands for no randomness.
pub fn chat_body_given(req: &TurnRequest, messages: Vec<Json>, zero: Json) -> (r: Json)
    ensures
        r@ == body_json(req@, json::array_view(messages@), zero@),
{
    let model = normalize_copilot_model(req.model.as_str());
    let tools = copilot_tools(&req.tool_names);
    proof {
        json::lemma_array_view(tools@);
    }
    let body = Json::object()
        .with("model", Json::text(model.as_str()))
        .with("messages", Json::Array(messages))
        .with("stream", Json::Bool(true))
        .with("temperature", zero);
    if tools.len() > 0 {
        body.with("tools", Json::Array(tools)).with("tool_choice", Json::text("auto"))
    } else {
        body
    }
}

/// The JSON number that stands for no randomness.
pub open spec fn zero_json() -> JsonView {
    match json::json_parse("0.0"@) {
        Ok(v) => v,
        Err(_) => JsonView::Unsigned(0),
    }
}

/// A request, given the conversation.
pub fn chat_body_with_messages(req: &TurnRequest, messages: Vec<Json>) -> (r: Json)
    ensures
        r@ == body_json(req@, json::array_view(messages@), zero_json()),
{
    let zero = match json::parse("0.0") {
        Ok(v) => v,
        Err(_) => Json::Unsigned(0),
    };
    chat_body_given(req, messages, zero)
}

// ---------------------------------------------------------------------------
// What a request holds
// ---------------------------------------------------------------------------

proof fn lemma_request_names()
    ensures
        "model"@.len() == 5 && "model"@[0] == 'm',
        "messages"@.len() == 8,
        "stream"@.len() == 6 && "stream"@[0] == 's',
        "temperature"@.len() == 11 && "temperature"@[1] == 'e',
        "tools"@.len() == 5 && "tools"@[0] == 't',
        "tool_choice"@.len() == 11 && "tool_choice"@[1] == 'o',
        "role"@.len() == 4 && "role"@[0] == 'r',
        "content"@.len() == 7,
        "type"@.len() == 4 && "type"@[1] == 'y',
        "text"@.len() == 4 && "text"@[1] == 'e',
        "image_url"@.len() == 9,
        "url"@.len() == 3,
        "function"@.len() == 8,
        "name"@.len() == 4 && "name"@[0] == 'n',
        "description"@.len() == 11,
        "parameters"@.len() == 10,
{
    reveal_strlit("model");
    reveal_strlit("messages");
    reveal_strlit("stream");
    reveal_strlit("temperature");
    reveal_strlit("tools");
    reveal_strlit("tool_choice");
    reveal_strlit("role");
    reveal_strlit("content");
    reveal_strlit("type");
    reveal_strlit("text");
    reveal_strlit("image_url");
    reveal_strlit("url");
    reveal_strlit("function");
    reveal_strlit("name");
    reveal_strlit("description");
    reveal_strlit("parameters");
}

/// A request holds the model and the conversation and asks for a stream; tools are offered
/// exactly where some are allowed.
pub proof fn a_request_holds_what_it_is_made_with(
    req: RequestView,
    messages: Seq<JsonView>,
    zero: JsonView,
)
    ensures
        ({
            let body = body_json(req, messages, zero);
            let tools = tools_json(req.tool_names);
            &&& json::text_field(body, "model"@) == Some(model_of(req.model))
            &&& json::items_field(body, "messages"@) == Some(messages)
            &&& json::bool_field(body, "stream"@) == Some(true)
            &&& json::field(body, "temperature"@) == Some(zero)
            &&& tools.len() > 0 ==> json::items_field(body, "tools"@) == Some(tools)
                && json::text_field(body, "tool_choice"@) == Some("auto"@)
            &&& tools.len() == 0 ==> json::field(body, "tools"@) is None && json::field(
                body,
                "tool_choice"@,
            ) is None
        }),
{
    lemma_request_names();
}

/// A model is asked for by its name without the white space round it, and without a name it
/// is the first of those that are always offered.
pub proof fn models_are_asked_for_by_name(name: Seq<char>)
    ensures
        text::trimmed(name).len() > 0 ==> model_of(name) == text::trimmed(name),
        text::trimmed(name).len() == 0 ==> model_of(name) == "gpt-4.1"@ && own_models()[0].id
            == model_of(name),
{
}

/// A conversation begins with the system prompt, where there is one. Then come the messages
/// of the request, or the prompt with its pictures, from the user.
pub proof fn a_conversation_begins_with_the_system_prompt(req: RequestView)
    ensures
        ({
            let sent = conversation(req);
            let n = if req.system_prompt is Some {
                1int
            } else {
                0int
            };
            &&& req.system_prompt matches Some(s) ==> sent.len() > 0 && json::text_field(
                sent[0],
                "role"@,
            ) == Some("system"@) && json::text_field(sent[0], "content"@) == Some(s)
            &&& req.messages.len() > 0 ==> sent.skip(n) == messages_json(req.messages)
            &&& req.messages.len() == 0 ==> {
                let content = json::items_field(sent[n], "content"@)->0;
                &&& sent.len() == n + 1
                &&& json::text_field(sent[n], "role"@) == Some("user"@)
                &&& json::items_field(sent[n], "content"@) is Some
                &&& content.len() == req.images.len() + 1
                &&& json::text_field(content[0], "text"@) == Some(req.prompt)
                &&& forall|i: int|
                    0 <= i < req.images.len() ==> json::inner_text(
                        #[trigger] content[i + 1],
                        "image_url"@,
                        "url"@,
                    ) == Some(
                        "data:"@ + req.images[i].mime_type + ";base64,"@
                            + req.images[i].base64_data,
                    )
            }
        }),
{
    lemma_request_names();
    let sent = conversation(req);
    let n = if req.system_prompt is Some {
        1int
    } else {
        0int
    };
    if req.messages.len() > 0 {
        assert(sent.skip(n) =~= messages_json(req.messages));
    } else {
        let shown = req.images.map_values(|i: ImageView| image_part(i));
        let content = seq![text_part(req.prompt)] + shown;
        assert(sent[n] == prompt_json(req.prompt, req.images));
        assert forall|i: int| 0 <= i < req.images.len() implies json::inner_text(
            #[trigger] content[i + 1],
            "image_url"@,
            "url"@,
        ) == Some(
            "data:"@ + req.images[i].mime_type + ";base64,"@ + req.images[i].base64_data,
        ) by {
            assert(content[i + 1] == image_part(req.images[i]));
        }
    }
}

/// Messages are sent in order, each under its role and with all of its parts; those that
/// hold nothing but white space are left out.
pub proof fn messages_are_sent_in_order(messages: Seq<ModelMessageView>, m: ModelMessageView)
    ensures
        ({
            let before = messages_json(messages);
            let after = messages_json(messages.push(m));
            let empty = forall|i: int|
                0 <= i < m.parts.len() ==> (#[trigger] m.parts[i] matches PartView::Text { text }
                    && text::trimmed(text).len() == 0);
            &&& empty ==> after == before
            &&& !empty ==> {
                let content = json::items_field(after.last(), "content"@)->0;
                &&& after.len() == before.len() + 1
                &&& after.drop_last() == before
                &&& json::text_field(after.last(), "role"@) == Some(role_of(m.role))
                &&& json::items_field(after.last(), "content"@) is Some
                &&& content.len() == m.parts.len()
                &&& forall|i: int|
                    0 <= i < m.parts.len() ==> (match m.parts[i] {
                        PartView::Text { text } => json::text_field(
                            #[trigger] content[i],
                            "text"@,
                        ) == Some(text) && json::text_field(content[i], "type"@) == Some("text"@),
                        PartView::Image { image } => json::inner_text(
                            content[i],
                            "image_url"@,
                            "url"@,
                        ) == Some("data:"@ + image.mime_type + ";base64,"@ + image.base64_data),
                    })
            }
        }),
{
    lemma_request_names();
    assert(messages.push(m).drop_last() =~= messages);
    let empty = forall|i: int|
        0 <= i < m.parts.len() ==> (#[trigger] m.parts[i] matches PartView::Text { text }
            && text::trimmed(text).len() == 0);
    assert(codex_request::all_empty(m.parts) <==> empty) by {
        if codex_request::all_empty(m.parts) {
            assert forall|i: int| 0 <= i < m.parts.len() implies (
            #[trigger] m.parts[i] matches PartView::Text { text } && text::trimmed(text).len()
                == 0) by {
                assert(codex_request::is_empty_text(m.parts[i]));
            }
        }
    }
    if !empty {
        let after = messages_json(messages.push(m));
        assert(after.drop_last() =~= messages_json(messages));
    }
}

/// What the assistant said is the assistant's, what the system or the developer said the
/// system's, in whatever case the role is written, and all else the user's.
pub proof fn roles_are_kept(role: Seq<char>)
    ensures
        ({
            let r = text::ascii_lower(role);
            &&& role_of(role) == "assistant"@ <==> r == "assistant"@
            &&& role_of(role) == "system"@ <==> r == "system"@ || r == "developer"@
            &&& r != "assistant"@ && r != "system"@ && r != "developer"@ ==> role_of(role)
                == "user"@
        }),
{
    reveal_strlit("assistant");
    reveal_strlit("system");
    reveal_strlit("developer");
    reveal_strlit("user");
    assert("assistant"@.len() == 9 && "system"@.len() == 6 && "user"@.len() == 4
        && "developer"@.len() == 9 && "developer"@[0] != "assistant"@[0]);
}

/// A model that is listed is offered unless it is switched off or cannot chat; its name is
/// shown, or its id where it has none. Where none is listed, those are offered that always
/// are.
pub proof fn listed_models_are_offered(items: Seq<JsonView>, model: JsonView, id: Seq<char>)
    requires
        json::text_field(model, "id"@) == Some(id),
    ensures
        ({
            let off = json::field(model, "model_policy"@) matches Some(p) && json::bool_field(
                p,
                "enabled"@,
            ) == Some(false);
            let mute = json::items_field(model, "capabilities"@) matches Some(all) && forall|i: int|
                0 <= i < all.len() ==> !(#[trigger] all[i] matches JsonView::Text(t)
                    && text::ascii_lower(t) == text::ascii_lower("chat"@));
            let before = listed_models(items);
            let after = listed_models(items.push(model));
            &&& off || mute ==> after == before
            &&& !off && !mute ==> after.len() == before.len() + 1 && after.drop_last() == before
                && after.last().id == id && (json::text_field(model, "name"@) matches Some(n)
                ==> after.last().display_name == n) && (json::field(model, "name"@) is None
                && json::text_field(model, "display_name"@) is None ==> after.last().display_name
                == id)
        }),
{
    assert(items.push(model).drop_last() =~= items);
    let before = listed_models(items);
    let after = listed_models(items.push(model));
    if let Some(all) = json::items_field(model, "capabilities"@) {
        assert(has_chat(all) <==> !(forall|i: int|
            0 <= i < all.len() ==> !(#[trigger] all[i] matches JsonView::Text(t)
                && text::ascii_lower(t) == text::ascii_lower("chat"@)))) by {
            if has_chat(all) {
                let i = choose|i: int| 0 <= i < all.len() && is_chat(#[trigger] all[i]);
                assert(all[i] matches JsonView::Text(t) && text::ascii_lower(t)
                    == text::ascii_lower("chat"@));
            } else {
                assert forall|i: int| 0 <= i < all.len() implies !(
                #[trigger] all[i] matches JsonView::Text(t) && text::ascii_lower(t)
                    == text::ascii_lower("chat"@)) by {
                    assert(!is_chat(all[i]));
                }
            }
        }
    }
    if after != before {
        assert(after.drop_last() =~= before);
    }
}

/// A successful answer is read as it is; any other one is an error that tells what failed,
/// the status and the body, without its tokens.
pub proof fn failed_answers_tell_what_failed(
    what: Seq<char>,
    status: Seq<char>,
    body: Seq<char>,
)
    ensures
        answer_in(what, true, status, body) == json::json_parse(body),
        answer_in(what, false, status, body) == Err::<JsonView, Seq<char>>(
            what + " failed with HTTP "@ + status + ": "@ + redacted(body),
        ),
{
}

/// Every request names the editor and the integration, the given ones or those that stand in
/// for them.
pub proof fn requests_name_the_editor(editor: Seq<char>, integration: Seq<char>)
    ensures
        common_headers(Some(editor), Some(integration)).contains(("editor-version"@, editor)),
        common_headers(Some(editor), Some(integration)).contains(
            ("copilot-integration-id"@, integration),
        ),
        common_headers(None, None).contains(("editor-version"@, "vscode/1.95.0"@)),
        common_headers(None, None).contains(("copilot-integration-id"@, "vscode-chat"@)),
        common_headers(None, None).contains(("user-agent"@, "GithubCopilot/1.0"@)),
        common_headers(None, None).contains(("accept"@, "application/json"@)),
        common_headers(None, None).contains(("content-type"@, "application/json"@)),
        common_headers(Some(editor), Some(integration)).take(3) == common_headers(None, None).take(
            3,
        ),
{
    let given = common_headers(Some(editor), Some(integration));
    let plain = common_headers(None, None);
    assert(given[3] == ("editor-version"@, editor));
    assert(given[4] == ("copilot-integration-id"@, integration));
    assert(plain[0] == ("accept"@, "application/json"@));
    assert(plain[1] == ("content-type"@, "application/json"@));
    assert(plain[2] == ("user-agent"@, "GithubCopilot/1.0"@));
    assert(plain[3] == ("editor-version"@, "vscode/1.95.0"@));
    assert(plain[4] == ("copilot-integration-id"@, "vscode-chat"@));
    assert(given.take(3) =~= plain.take(3));
}

/// A token is read with the time at which it expires, and neither without the other.
pub proof fn a_token_is_read_with_its_time(v: JsonView, token: Seq<char>, expires_at: nat)
    requires
        v is Object,
    ensures
        json::field(v, "token"@) == Some(JsonView::Text(token)) && json::field(v, "expires_at"@)
            == Some(JsonView::Unsigned(expires_at)) ==> token_in(v) == Some((token, expires_at)),
        json::field(v, "token"@) is None || json::field(v, "expires_at"@) is None ==> token_in(
            v,
        ) is None,
        token_in(JsonView::Array(seq![JsonView::Text(token), JsonView::Unsigned(expires_at)]))
            == Some((token, expires_at)),
{
}

} // verus!
