//! What a provider is told: the system prompt, and the request of a round.
use vstd::prelude::*;

use crate::json;
use crate::json::{Json, JsonView};
use crate::runtime::events::{EventView, SessionEvent};
use crate::runtime::types::{ApprovalPolicy, SessionId};
use crate::text;
use crate::tools::names;

verus! {

/// How long a tool call runs before the model is told that it goes on.
pub const TOOL_MODEL_CHECKPOINT_AFTER_SECS: u64 = 30;

/// How often it is told that a tool call goes on.
pub const TOOL_PROGRESS_INTERVAL_SECS: u64 = 5;

/// The families of providers, which differ in how tools are called.
#[derive(Debug, Clone, Copy, PartialEq, Eq, Structural, Hash)]
pub enum ProviderFamily {
    Claude,
    Codex,
    Copilot,
    Generic,
}

// ---------------------------------------------------------------------------
// Configuration
// ---------------------------------------------------------------------------

/// The layers that a configuration adds to the system prompt.
#[derive(Debug)]
pub struct PromptRuntimeConfig {
    pub system_layers: Vec<String>,
}

impl PromptRuntimeConfig {
    pub fn new() -> (r: PromptRuntimeConfig)
        ensures
            r.system_layers@.len() == 0,
    {
        PromptRuntimeConfig { system_layers: Vec::new() }
    }

    /// The configuration with one more layer.
    pub fn with_system_layer(self, layer: &str) -> (r: PromptRuntimeConfig)
        ensures
            text::views(r.system_layers@) == text::views(self.system_layers@).push(layer@),
    {
        let mut system_layers = self.system_layers;
        let ghost before = text::views(system_layers@);
        system_layers.push(layer.to_string());
        assert(text::views(system_layers@) =~= before.push(layer@));
        PromptRuntimeConfig { system_layers }
    }
}

impl Default for PromptRuntimeConfig {
    fn default() -> (r: PromptRuntimeConfig)
        ensures
            r.system_layers@.len() == 0,
    {
        PromptRuntimeConfig::new()
    }
}

/// What plugins add to requests.
#[derive(Debug)]
pub struct PluginHooks {
    pub system_prompt_layers: Vec<String>,
    pub request_metadata: Vec<(String, Json)>,
    pub advertised_tool_names: Vec<String>,
}

impl Default for PluginHooks {
    fn default() -> (r: PluginHooks)
        ensures
            r.system_prompt_layers@.len() == 0,
            r.request_metadata@.len() == 0,
            r.advertised_tool_names@.len() == 0,
    {
        PluginHooks::new()
    }
}

impl PluginHooks {
    pub fn new() -> (r: PluginHooks)
        ensures
            r.system_prompt_layers@.len() == 0,
            r.request_metadata@.len() == 0,
            r.advertised_tool_names@.len() == 0,
    {
        PluginHooks {
            system_prompt_layers: Vec::new(),
            request_metadata: Vec::new(),
            advertised_tool_names: Vec::new(),
        }
    }

    /// The hooks with one more layer.
    pub fn with_system_prompt_layer(self, layer: &str) -> (r: PluginHooks)
        ensures
            text::views(r.system_prompt_layers@) == text::views(self.system_prompt_layers@).push(
                layer@,
            ),
            r.request_metadata == self.request_metadata,
            r.advertised_tool_names == self.advertised_tool_names,
    {
        let mut layers = self.system_prompt_layers;
        let ghost before = text::views(layers@);
        layers.push(layer.to_string());
        assert(text::views(layers@) =~= before.push(layer@));
        PluginHooks {
            system_prompt_layers: layers,
            request_metadata: self.request_metadata,
            advertised_tool_names: self.advertised_tool_names,
        }
    }

    /// The hooks with a member of the metadata set.
    pub fn with_request_metadata(self, key: &str, value: Json) -> (r: PluginHooks)
        ensures
            json::object_view(r.request_metadata@) == json::object_view(
                self.request_metadata@,
            ).insert(key@, value@),
            r.system_prompt_layers == self.system_prompt_layers,
            r.advertised_tool_names == self.advertised_tool_names,
    {
        let mut members = self.request_metadata;
        let ghost before = members@;
        members.push((key.to_string(), value));
        assert(members@.drop_last() =~= before);
        PluginHooks {
            system_prompt_layers: self.system_prompt_layers,
            request_metadata: members,
            advertised_tool_names: self.advertised_tool_names,
        }
    }

    /// The hooks with one more tool that is advertised.
    pub fn with_advertised_tool(self, name: &str) -> (r: PluginHooks)
        ensures
            text::views(r.advertised_tool_names@) == text::views(self.advertised_tool_names@).push(
                name@,
            ),
            r.system_prompt_layers == self.system_prompt_layers,
            r.request_metadata == self.request_metadata,
    {
        let mut tools = self.advertised_tool_names;
        let ghost before = text::views(tools@);
        tools.push(name.to_string());
        assert(text::views(tools@) =~= before.push(name@));
        PluginHooks {
            system_prompt_layers: self.system_prompt_layers,
            request_metadata: self.request_metadata,
            advertised_tool_names: tools,
        }
    }
}

/// How turns are run.
#[derive(Debug)]
pub struct HarnessConfig {
    pub model: String,
    pub max_tool_rounds: usize,
    pub tool_model_checkpoint_after_secs: u64,
    pub approval_policy: ApprovalPolicy,
    pub prompt: PromptRuntimeConfig,
    pub hooks: PluginHooks,
    pub provider_family: ProviderFamily,
}

impl HarnessConfig {
    /// The configuration for a model: the user is asked about risky calls, and nothing is
    /// added.
    pub fn new(model: &str) -> (r: HarnessConfig)
        ensures
            r.model@ == model@,
            r.max_tool_rounds == 8,
            r.tool_model_checkpoint_after_secs == TOOL_MODEL_CHECKPOINT_AFTER_SECS,
            r.approval_policy == ApprovalPolicy::OnRequest,
            r.prompt.system_layers@.len() == 0,
            r.hooks.system_prompt_layers@.len() == 0,
            r.hooks.request_metadata@.len() == 0,
            r.hooks.advertised_tool_names@.len() == 0,
            r.provider_family == ProviderFamily::Generic,
    {
        HarnessConfig {
            model: model.to_string(),
            max_tool_rounds: 8,
            tool_model_checkpoint_after_secs: TOOL_MODEL_CHECKPOINT_AFTER_SECS,
            approval_policy: ApprovalPolicy::OnRequest,
            prompt: PromptRuntimeConfig::new(),
            hooks: PluginHooks::new(),
            provider_family: ProviderFamily::Generic,
        }
    }
}

// ---------------------------------------------------------------------------
// The system prompt
// ---------------------------------------------------------------------------

/// What an agent is told whose provider calls tools by itself.
pub const NATIVE_PREAMBLE: &'static str = "You are an Inductor coding agent working directly in the user's workspace. Use your tools to read, edit, and create files and run commands. Don't ask for permission to use tools or mention any tool-call format — just do the work. Keep explanations concise.\n\nWorking rules:\n- Inspect relevant files before changing code; do not guess codebase structure.\n- Prefer the smallest correct change that follows existing local patterns.\n- Never revert or overwrite unrelated user changes.\n- Continue after tool results until the task is complete, blocked, or clearly needs user input.\n- Use precise edits for existing files and run focused verification when practical.\n- Final responses should state the outcome and any verification performed without extra preamble.\n\nTodo and question rules:\n- `todo_write` and `ask_questions` are real tools available to you. Use those tools directly; do not simulate them in prose.\n- Create and maintain a todo list for every user task with the `todo_write` tool before substantive work.\n- Keep exactly one todo in_progress while actively working, and mark todos completed as soon as each is done.\n- Update or replace todos when the user's next prompt changes the plan; clear stale todos if there is no remaining work.\n- If the user asks you to ask questions, prompt for input, collect preferences, or choose among options, use the `ask_questions` tool instead of writing the questions in normal text.\n- Ask the user instead of guessing on important or ambiguous feature, architecture, product, UX, data-loss, security, or other choice points.\n- Use the `ask_questions` tool for such choices. Include options with one-line descriptions, pros, cons, and a recommended option; the user can still choose a custom answer.";

/// How an agent writes a tool call down, before the list of the tools.
pub const ENVELOPE_RULES: &'static str = "You are an Inductor coding agent operating on the user's machine.\nCreate and maintain a todo list for every user task with todo_write: create todos before substantive work, keep exactly one in_progress item while working, mark items completed as soon as they are done, and update/replace the list when the user's prompt changes the plan.\nWhen a feature, architecture, product, UX, data-loss, security, or other choice is ambiguous or important, ask the user instead of assuming. Use ask_questions with concrete options; every option needs a short description plus pros and cons, and mark your recommended option.\nYou can run tools by emitting EXACTLY ONE tool-call envelope at the end of your reply:\n\n<inductor_tool_call>{\"name\":\"<tool>\",\"input\":{ ... }}</inductor_tool_call>\n\nAvailable tools and their JSON schemas:\n";

/// How an agent uses the tools, behind their list.
pub const TOOL_RULES: &'static str = "\n\nRules:\n- Paths may be workspace-relative or absolute unless the user has enabled workspace-only mode.\n- Prefer edit_file or multi_edit over write_file when changing existing files.\n- Exact edit tools reject binary files, stale expected_hash values, and non-unique matches.\n- Emit at most one envelope per reply. After a tool result is returned, continue.\n- When you have the final answer and need no more tools, reply with prose and NO envelope.";

/// What an agent is told that has to write its tool calls down, given what is said of
/// the tools.
pub open spec fn generic_preamble(docs: Seq<char>) -> Seq<char> {
    ENVELOPE_RULES@ + docs + TOOL_RULES@
}

/// Where an agent works.
#[derive(Debug)]
pub struct SystemEnvironment {
    pub model: String,
    pub cwd: String,
    pub workspace_root: String,
    pub is_git_repo: bool,
    pub platform: String,
    pub date_utc: String,
}

/// The content of a `SystemEnvironment`.
pub struct EnvironmentView {
    pub model: Seq<char>,
    pub cwd: Seq<char>,
    pub workspace_root: Seq<char>,
    pub is_git_repo: bool,
    pub platform: Seq<char>,
    pub date_utc: Seq<char>,
}

impl View for SystemEnvironment {
    type V = EnvironmentView;

    open spec fn view(&self) -> EnvironmentView {
        EnvironmentView {
            model: self.model@,
            cwd: self.cwd@,
            workspace_root: self.workspace_root@,
            is_git_repo: self.is_git_repo,
            platform: self.platform@,
            date_utc: self.date_utc@,
        }
    }
}

/// What an agent is told of where it works.
pub open spec fn environment_text(env: EnvironmentView) -> Seq<char> {
    "Environment:\n<env>\n  Model: "@ + env.model + "\n  Working directory: "@ + env.cwd
        + "\n  Workspace root: "@ + env.workspace_root + "\n  Is workspace a git repo: "@ + (
    if env.is_git_repo {
        "yes"@
    } else {
        "no"@
    }) + "\n  Platform: "@ + env.platform + "\n  Current date (UTC): "@ + env.date_utc
        + "\n</env>"@
}

/// A layer of the system prompt.
#[derive(Debug)]
pub struct PromptLayer {
    pub name: &'static str,
    pub content: String,
}

/// The content of a `PromptLayer`.
pub struct LayerView {
    pub name: Seq<char>,
    pub content: Seq<char>,
}

impl View for PromptLayer {
    type V = LayerView;

    open spec fn view(&self) -> LayerView {
        LayerView { name: self.name@, content: self.content@ }
    }
}

pub open spec fn layer_views(layers: Seq<PromptLayer>) -> Seq<LayerView> {
    layers.map_values(|l: PromptLayer| l@)
}

pub open spec fn named_layers(name: Seq<char>, contents: Seq<Seq<char>>) -> Seq<LayerView> {
    contents.map_values(|c: Seq<char>| LayerView { name, content: c })
}

/// The layers of the system prompt in their order, given what is said of the tools and
/// how much effort is asked for.
pub open spec fn prompt_layers(
    family: ProviderFamily,
    env: EnvironmentView,
    configured: Seq<Seq<char>>,
    plugins: Seq<Seq<char>>,
    hint: Option<Seq<char>>,
    docs: Seq<char>,
) -> Seq<LayerView> {
    let base = if family == ProviderFamily::Generic {
        generic_preamble(docs)
    } else {
        NATIVE_PREAMBLE@
    };
    let layers = seq![
        LayerView { name: "base"@, content: base },
        LayerView { name: "environment"@, content: environment_text(env) },
    ] + named_layers("configured"@, configured) + named_layers("plugin"@, plugins);
    match hint {
        Some(h) => layers.push(LayerView { name: "effort"@, content: h }),
        None => layers,
    }
}

/// The layers that hold more than white space.
pub open spec fn shown_layers(layers: Seq<LayerView>) -> Seq<Seq<char>>
    decreases layers.len(),
{
    if layers.len() == 0 {
        seq![]
    } else {
        let before = shown_layers(layers.drop_last());
        if text::trimmed(layers.last().content).len() > 0 {
            before.push(layers.last().content)
        } else {
            before
        }
    }
}

/// The system prompt that layers make.
pub open spec fn composed(layers: Seq<LayerView>) -> Seq<char> {
    text::join(shown_layers(layers), "\n\n"@)
}

/// What an agent is told that has to write its tool calls down, given what is said of
/// the tools.
pub fn generic_preamble_with(docs: &str) -> (r: String)
    ensures
        r@ == generic_preamble(docs@),
{
    text::cat3(
        ENVELOPE_RULES,
        docs,
        TOOL_RULES,
    )
}

/// What an agent is told that has to write its tool calls down.
pub fn generic_tools_preamble() -> (r: String)
    ensures
        r@ == generic_preamble(names::prompt_docs()),
{
    generic_preamble_with(names::tool_prompt_docs().as_str())
}

fn native_tools_preamble() -> (r: String)
    ensures
        r@ == NATIVE_PREAMBLE@,
{
    NATIVE_PREAMBLE.to_string()
}

impl SystemEnvironment {
    /// What the agent is told of where it works.
    pub fn render(&self) -> (r: String)
        ensures
            r@ == environment_text(self@),
    {
        let git = if self.is_git_repo {
            "yes"
        } else {
            "no"
        };
        let mut r = text::cat5(
            "Environment:\n<env>\n  Model: ",
            self.model.as_str(),
            "\n  Working directory: ",
            self.cwd.as_str(),
            "\n  Workspace root: ",
        );
        r.push_str(self.workspace_root.as_str());
        r.push_str("\n  Is workspace a git repo: ");
        r.push_str(git);
        r.push_str("\n  Platform: ");
        r.push_str(self.platform.as_str());
        r.push_str("\n  Current date (UTC): ");
        r.push_str(self.date_utc.as_str());
        r.push_str("\n</env>");
        r
    }
}

fn push_layers(layers: &mut Vec<PromptLayer>, name: &'static str, contents: &Vec<String>)
    ensures
        layer_views(final(layers)@) == layer_views(old(layers)@) + named_layers(
            name@,
            text::views(contents@),
        ),
{
    let ghost first = layer_views(layers@);
    let ghost all = named_layers(name@, text::views(contents@));
    let mut i: usize = 0;
    assert(first + all.take(0) =~= first);
    while i < contents.len()
        invariant
            i <= contents@.len(),
            all == named_layers(name@, text::views(contents@)),
            layer_views(layers@) == first + all.take(i as int),
        decreases contents@.len() - i,
    {
        let ghost before = layer_views(layers@);
        layers.push(PromptLayer { name, content: contents[i].clone() });
        assert(layer_views(layers@) =~= before.push(all[i as int]));
        assert(first + all.take(i + 1) =~= (first + all.take(i as int)).push(all[i as int]));
        i += 1;
    }
    assert(all.take(i as int) =~= all);
}

/// Puts the system prompt together.
pub struct PromptComposer;

impl PromptComposer {
    /// The layers of the system prompt, given what is said of the tools and how much
    /// effort is asked for.
    pub fn layers_with(
        family: ProviderFamily,
        environment: &SystemEnvironment,
        prompt: &PromptRuntimeConfig,
        hooks: &PluginHooks,
        hint: Option<String>,
        docs: &str,
    ) -> (layers: Vec<PromptLayer>)
        ensures
            layer_views(layers@) == prompt_layers(
                family,
                environment@,
                text::views(prompt.system_layers@),
                text::views(hooks.system_prompt_layers@),
                text::opt(hint),
                docs@,
            ),
    {
        let base = match family {
            ProviderFamily::Generic => generic_preamble_with(docs),
            _ => native_tools_preamble(),
        };
        let mut layers: Vec<PromptLayer> = Vec::new();
        let ghost first = LayerView { name: "base"@, content: base@ };
        layers.push(PromptLayer { name: "base", content: base });
        layers.push(PromptLayer { name: "environment", content: environment.render() });
        assert(layer_views(layers@) =~= seq![
            first,
            LayerView { name: "environment"@, content: environment_text(environment@) },
        ]);
        push_layers(&mut layers, "configured", &prompt.system_layers);
        push_layers(&mut layers, "plugin", &hooks.system_prompt_layers);
        match hint {
            Some(h) => {
                let ghost before = layer_views(layers@);
                let ghost content = h@;
                layers.push(PromptLayer { name: "effort", content: h });
                assert(layer_views(layers@) =~= before.push(
                    LayerView { name: "effort"@, content },
                ));
            },
            None => {},
        }
        layers
    }

    /// The layers of the system prompt, given how much effort is asked for.
    pub fn layers(
        family: ProviderFamily,
        environment: &SystemEnvironment,
        prompt: &PromptRuntimeConfig,
        hooks: &PluginHooks,
        hint: Option<String>,
    ) -> (layers: Vec<PromptLayer>)
        ensures
            layer_views(layers@) == prompt_layers(
                family,
                environment@,
                text::views(prompt.system_layers@),
                text::views(hooks.system_prompt_layers@),
                text::opt(hint),
                names::prompt_docs(),
            ),
    {
        let docs = names::tool_prompt_docs();
        PromptComposer::layers_with(family, environment, prompt, hooks, hint, docs.as_str())
    }

    /// The system prompt that the layers make.
    pub fn join(layers: &Vec<PromptLayer>) -> (r: String)
        ensures
            r@ == composed(layer_views(layers@)),
    {
        let ghost all = layer_views(layers@);
        let mut shown: Vec<String> = Vec::new();
        let mut i: usize = 0;
        assert(text::views(shown@) =~= shown_layers(all.take(0)));
        while i < layers.len()
            invariant
                i <= layers@.len(),
                all == layer_views(layers@),
                text::views(shown@) == shown_layers(all.take(i as int)),
            decreases layers@.len() - i,
        {
            assert(all.take(i + 1).drop_last() =~= all.take(i as int));
            assert(all.take(i + 1).last() == layers@[i as int]@);
            let t = text::trim(layers[i].content.as_str());
            if !text::is_blank_len(&t) {
                let ghost before = text::views(shown@);
                shown.push(layers[i].content.clone());
                assert(text::views(shown@) =~= before.push(layers@[i as int]@.content));
            }
            i += 1;
        }
        assert(all.take(i as int) =~= all);
        text::join_strings(shown.as_slice(), "\n\n")
    }

    /// The system prompt.
    pub fn compose(
        family: ProviderFamily,
        environment: &SystemEnvironment,
        prompt: &PromptRuntimeConfig,
        hooks: &PluginHooks,
        hint: Option<String>,
    ) -> (r: String)
        ensures
            r@ == composed(
                prompt_layers(
                    family,
                    environment@,
                    text::views(prompt.system_layers@),
                    text::views(hooks.system_prompt_layers@),
                    text::opt(hint),
                    names::prompt_docs(),
                ),
            ),
    {
        let layers = PromptComposer::layers(family, environment, prompt, hooks, hint);
        PromptComposer::join(&layers)
    }
}

// ---------------------------------------------------------------------------
// Requests
// ---------------------------------------------------------------------------

/// A picture that goes with a prompt.
#[derive(Debug)]
pub struct ImageAttachment {
    pub path: Option<String>,
    pub mime_type: String,
    pub base64_data: String,
    pub width: Option<u32>,
    pub height: Option<u32>,
    pub file_size: u64,
}

/// The content of a `ImageAttachment`.
pub struct ImageView {
    pub path: Option<Seq<char>>,
    pub mime_type: Seq<char>,
    pub base64_data: Seq<char>,
    pub width: Option<u32>,
    pub height: Option<u32>,
    pub file_size: u64,
}

impl View for ImageAttachment {
    type V = ImageView;

    open spec fn view(&self) -> ImageView {
        ImageView {
            path: text::opt(self.path),
            mime_type: self.mime_type@,
            base64_data: self.base64_data@,
            width: self.width,
            height: self.height,
            file_size: self.file_size,
        }
    }
}

pub open spec fn image_views(images: Seq<ImageAttachment>) -> Seq<ImageView> {
    images.map_values(|i: ImageAttachment| i@)
}

impl Clone for ImageAttachment {
    fn clone(&self) -> (r: ImageAttachment)
        ensures
            r@ == self@,
    {
        ImageAttachment {
            path: self.path.clone(),
            mime_type: self.mime_type.clone(),
            base64_data: self.base64_data.clone(),
            width: self.width,
            height: self.height,
            file_size: self.file_size,
        }
    }
}

/// A part of a message.
#[derive(Debug)]
pub enum MessagePart {
    Text { text: String },
    Image { image: ImageAttachment },
}

/// The content of a `MessagePart`.
pub enum PartView {
    Text { text: Seq<char> },
    Image { image: ImageView },
}

impl View for MessagePart {
    type V = PartView;

    open spec fn view(&self) -> PartView {
        match self {
            MessagePart::Text { text } => PartView::Text { text: text@ },
            MessagePart::Image { image } => PartView::Image { image: image@ },
        }
    }
}

impl Clone for MessagePart {
    fn clone(&self) -> (r: MessagePart)
        ensures
            r@ == self@,
    {
        match self {
            MessagePart::Text { text } => MessagePart::Text { text: text.clone() },
            MessagePart::Image { image } => MessagePart::Image { image: image.clone() },
        }
    }
}

pub open spec fn part_views(parts: Seq<MessagePart>) -> Seq<PartView> {
    parts.map_values(|p: MessagePart| p@)
}

/// A message of a request.
#[derive(Debug)]
pub struct ModelMessage {
    pub role: String,
    pub parts: Vec<MessagePart>,
}

/// The content of a `ModelMessage`.
pub struct ModelMessageView {
    pub role: Seq<char>,
    pub parts: Seq<PartView>,
}

impl View for ModelMessage {
    type V = ModelMessageView;

    open spec fn view(&self) -> ModelMessageView {
        ModelMessageView {
            role: self.role@,
            parts: part_views(self.parts@),
        }
    }
}

pub open spec fn model_message_views(messages: Seq<ModelMessage>) -> Seq<ModelMessageView> {
    messages.map_values(|m: ModelMessage| m@)
}

/// A message of a transcript, with the name of its role.
#[derive(Debug)]
pub struct ContextMessage {
    pub role: String,
    pub content: String,
}

/// The content of a `ContextMessage`.
pub struct ContextMessageView {
    pub role: Seq<char>,
    pub content: Seq<char>,
}

impl View for ContextMessage {
    type V = ContextMessageView;

    open spec fn view(&self) -> ContextMessageView {
        ContextMessageView {
            role: self.role@,
            content: self.content@,
        }
    }
}

pub open spec fn context_views(messages: Seq<ContextMessage>) -> Seq<ContextMessageView> {
    messages.map_values(|m: ContextMessage| m@)
}

/// A transcript as it is sent: as one text and as messages, maybe compacted.
#[derive(Debug)]
pub struct PreparedContext {
    pub prompt: String,
    pub messages: Vec<ContextMessage>,
    pub token_count: u64,
    pub original_token_count: u64,
    pub compacted: bool,
    pub summary: Option<String>,
}

/// The content of a `PreparedContext`.
pub struct ContextView {
    pub prompt: Seq<char>,
    pub messages: Seq<ContextMessageView>,
    pub token_count: u64,
    pub original_token_count: u64,
    pub compacted: bool,
    pub summary: Option<Seq<char>>,
}

impl View for PreparedContext {
    type V = ContextView;

    open spec fn view(&self) -> ContextView {
        ContextView {
            prompt: self.prompt@,
            messages: context_views(self.messages@),
            token_count: self.token_count,
            original_token_count: self.original_token_count,
            compacted: self.compacted,
            summary: text::opt(self.summary),
        }
    }
}

/// A request to a provider.
#[derive(Debug)]
pub struct TurnRequest {
    pub session_id: SessionId,
    pub model: String,
    pub prompt: String,
    pub system_prompt: Option<String>,
    pub messages: Vec<ModelMessage>,
    pub tool_names: Vec<String>,
    pub metadata: Json,
    pub images: Vec<ImageAttachment>,
}

/// The content of a `TurnRequest`.
pub struct RequestView {
    pub session_id: SessionId,
    pub model: Seq<char>,
    pub prompt: Seq<char>,
    pub system_prompt: Option<Seq<char>>,
    pub messages: Seq<ModelMessageView>,
    pub tool_names: Seq<Seq<char>>,
    pub metadata: JsonView,
    pub images: Seq<ImageView>,
}

impl View for TurnRequest {
    type V = RequestView;

    open spec fn view(&self) -> RequestView {
        RequestView {
            session_id: self.session_id,
            model: self.model@,
            prompt: self.prompt@,
            system_prompt: text::opt(self.system_prompt),
            messages: model_message_views(self.messages@),
            tool_names: text::views(self.tool_names@),
            metadata: self.metadata@,
            images: image_views(self.images@),
        }
    }
}

/// A message of one text.
pub open spec fn text_message(role: Seq<char>, content: Seq<char>) -> ModelMessageView {
    ModelMessageView { role, parts: seq![PartView::Text { text: content }] }
}

/// The messages with the given roles in place of their own.
pub open spec fn plain_messages(
    roles: Seq<Seq<char>>,
    messages: Seq<ContextMessageView>,
) -> Seq<ModelMessageView> {
    Seq::new(messages.len(), |i: int| text_message(roles[i], messages[i].content))
}

pub open spec fn image_parts(images: Seq<ImageView>) -> Seq<PartView> {
    images.map_values(|i: ImageView| PartView::Image { image: i })
}

/// The messages with pictures behind the last one of the user, if there is one.
pub open spec fn with_images(
    messages: Seq<ModelMessageView>,
    images: Seq<ImageView>,
) -> Seq<ModelMessageView>
    decreases messages.len(),
{
    if messages.len() == 0 || images.len() == 0 {
        messages
    } else if messages.last().role == "user"@ {
        let m = messages.last();
        messages.drop_last().push(
            ModelMessageView { parts: m.parts + image_parts(images), ..m },
        )
    } else {
        with_images(messages.drop_last(), images).push(messages.last())
    }
}

impl ModelMessage {
    /// A message of one text.
    pub fn text(role: &str, content: &str) -> (r: ModelMessage)
        ensures
            r@ == text_message(role@, content@),
    {
        let mut parts: Vec<MessagePart> = Vec::new();
        parts.push(MessagePart::Text { text: content.to_string() });
        assert(part_views(parts@) =~= seq![PartView::Text { text: content@ }]);
        ModelMessage { role: role.to_string(), parts }
    }
}

fn push_images(message: ModelMessage, images: &Vec<ImageAttachment>) -> (r: ModelMessage)
    ensures
        r@ == (ModelMessageView {
            parts: message@.parts + image_parts(image_views(images@)),
            ..message@
        }),
{
    let ghost first = message@.parts;
    let ghost added = image_parts(image_views(images@));
    let mut parts = message.parts;
    let mut i: usize = 0;
    assert(first + added.take(0) =~= first);
    while i < images.len()
        invariant
            i <= images@.len(),
            added == image_parts(image_views(images@)),
            part_views(parts@) == first + added.take(i as int),
        decreases images@.len() - i,
    {
        let ghost before = part_views(parts@);
        parts.push(MessagePart::Image { image: images[i].clone() });
        assert(part_views(parts@) =~= before.push(added[i as int]));
        assert(first + added.take(i + 1) =~= (first + added.take(i as int)).push(added[i as int]));
        i += 1;
    }
    assert(added.take(i as int) =~= added);
    ModelMessage { role: message.role, parts }
}

proof fn lemma_with_images(messages: Seq<ModelMessageView>, images: Seq<ImageView>, k: int)
    requires
        0 <= k < messages.len(),
        images.len() > 0,
        messages[k].role == "user"@,
        forall|j: int| k < j < messages.len() ==> (#[trigger] messages[j]).role != "user"@,
    ensures
        with_images(messages, images) == messages.update(
            k,
            ModelMessageView { parts: messages[k].parts + image_parts(images), ..messages[k] },
        ),
    decreases messages.len(),
{
    if k == messages.len() - 1 {
        assert(with_images(messages, images) =~= messages.update(
            k,
            ModelMessageView { parts: messages[k].parts + image_parts(images), ..messages[k] },
        ));
    } else {
        assert(messages[messages.len() - 1].role != "user"@);
        let shorter = messages.drop_last();
        assert forall|j: int| k < j < shorter.len() implies (#[trigger] shorter[j]).role
            != "user"@ by {
            assert(messages[j].role != "user"@);
        }
        lemma_with_images(shorter, images, k);
        assert(with_images(messages, images) =~= messages.update(
            k,
            ModelMessageView { parts: messages[k].parts + image_parts(images), ..messages[k] },
        ));
    }
}

proof fn lemma_without_user(messages: Seq<ModelMessageView>, images: Seq<ImageView>)
    requires
        forall|j: int| 0 <= j < messages.len() ==> (#[trigger] messages[j]).role != "user"@,
    ensures
        with_images(messages, images) == messages,
    decreases messages.len(),
{
    if messages.len() > 0 && images.len() > 0 {
        assert(messages[messages.len() - 1].role != "user"@);
        let shorter = messages.drop_last();
        assert forall|j: int| 0 <= j < shorter.len() implies (#[trigger] shorter[j]).role
            != "user"@ by {
            assert(messages[j].role != "user"@);
        }
        lemma_without_user(shorter, images);
        assert(shorter.push(messages.last()) =~= messages);
    }
}

/// The messages of a request: each with the given role, and the pictures behind the last
/// one of the user.
pub fn request_messages_with(
    roles: &Vec<String>,
    messages: &Vec<ContextMessage>,
    images: &Vec<ImageAttachment>,
) -> (out: Vec<ModelMessage>)
    requires
        roles@.len() == messages@.len(),
    ensures
        model_message_views(out@) == with_images(
            plain_messages(text::views(roles@), context_views(messages@)),
            image_views(images@),
        ),
{
    let ghost plain = plain_messages(text::views(roles@), context_views(messages@));
    let mut out: Vec<ModelMessage> = Vec::new();
    let mut i: usize = 0;
    while i < messages.len()
        invariant
            i <= messages@.len(),
            roles@.len() == messages@.len(),
            out@.len() == i,
            plain == plain_messages(text::views(roles@), context_views(messages@)),
            forall|k: int| 0 <= k < i ==> (#[trigger] out@[k])@ == plain[k],
        decreases messages@.len() - i,
    {
        out.push(ModelMessage::text(roles[i].as_str(), messages[i].content.as_str()));
        i += 1;
    }
    assert(model_message_views(out@) =~= plain);
    if images.len() == 0 {
        return out;
    }
    let mut k: usize = out.len();
    while k > 0
        invariant
            k <= out@.len(),
            images@.len() > 0,
            plain == plain_messages(text::views(roles@), context_views(messages@)),
            model_message_views(out@) == plain,
            forall|j: int| k <= j < plain.len() ==> (#[trigger] plain[j]).role != "user"@,
        decreases k,
    {
        k -= 1;
        assert(plain[k as int] == out@[k as int]@);
        if text::same(out[k].role.as_str(), "user") {
            let ghost before = out@;
            let message = out.remove(k);
            let with = push_images(message, images);
            let ghost shown = with@;
            out.insert(k, with);
            proof {
                lemma_with_images(plain, image_views(images@), k as int);
                assert(model_message_views(out@) =~= plain.update(k as int, shown));
            }
            return out;
        }
    }
    proof {
        lemma_without_user(plain, image_views(images@));
    }
    out
}

/// The roles of the messages in lower case.
pub open spec fn lower_roles(messages: Seq<ContextMessageView>) -> Seq<Seq<char>> {
    messages.map_values(|m: ContextMessageView| text::lowercase(m.role))
}

/// The messages of a request: with their roles in lower case, and the pictures behind the
/// last one of the user.
pub fn request_messages(messages: &Vec<ContextMessage>, images: &Vec<ImageAttachment>) -> (out: Vec<
    ModelMessage,
>)
    ensures
        model_message_views(out@) == with_images(
            plain_messages(lower_roles(context_views(messages@)), context_views(messages@)),
            image_views(images@),
        ),
{
    let mut roles: Vec<String> = Vec::new();
    let mut i: usize = 0;
    let ghost lower = lower_roles(context_views(messages@));
    while i < messages.len()
        invariant
            i <= messages@.len(),
            roles@.len() == i,
            lower == lower_roles(context_views(messages@)),
            forall|k: int| 0 <= k < i ==> (#[trigger] roles@[k])@ == lower[k],
        decreases messages@.len() - i,
    {
        roles.push(text::lowercase_of(messages[i].role.as_str()));
        i += 1;
    }
    assert(text::views(roles@) =~= lower);
    request_messages_with(&roles, messages, images)
}

/// The tools that are advertised: the library's own, and those of plugins that are not
/// among them.
pub open spec fn advertised(own: Seq<Seq<char>>, plugins: Seq<Seq<char>>) -> Seq<Seq<char>>
    decreases plugins.len(),
{
    if plugins.len() == 0 {
        own
    } else {
        let before = advertised(own, plugins.drop_last());
        if before.contains(plugins.last()) {
            before
        } else {
            before.push(plugins.last())
        }
    }
}

/// The tools that are advertised.
pub fn advertised_tool_names_for_hooks(hooks: &PluginHooks) -> (names: Vec<String>)
    ensures
        text::views(names@) == advertised(
            names::all_names(),
            text::views(hooks.advertised_tool_names@),
        ),
{
    let mut names = names::tool_names();
    let ghost all = text::views(hooks.advertised_tool_names@);
    let mut i: usize = 0;
    while i < hooks.advertised_tool_names.len()
        invariant
            i <= hooks.advertised_tool_names@.len(),
            all == text::views(hooks.advertised_tool_names@),
            text::views(names@) == advertised(names::all_names(), all.take(i as int)),
        decreases hooks.advertised_tool_names@.len() - i,
    {
        assert(all.take(i + 1).drop_last() =~= all.take(i as int));
        let name = &hooks.advertised_tool_names[i];
        assert(all.take(i + 1).last() == name@);
        if !text::contains_name(&names, name.as_str()) {
            let ghost before = text::views(names@);
            names.push(name.clone());
            assert(text::views(names@) =~= before.push(name@));
        }
        i += 1;
    }
    assert(all.take(i as int) =~= all);
    names
}

/// The object with the members of another one put over its own.
pub open spec fn overlaid(v: JsonView, members: Map<Seq<char>, JsonView>) -> JsonView {
    match v {
        JsonView::Object(m) => JsonView::Object(m.union_prefer_right(members)),
        _ => v,
    }
}

/// What goes with a request: how the session is configured, the round, and what plugins
/// add, which comes first.
pub open spec fn metadata(
    family: JsonView,
    effort: JsonView,
    policy: JsonView,
    round: nat,
    plugins: Map<Seq<char>, JsonView>,
) -> JsonView {
    overlaid(
        json::empty_object()
            .with("provider_family"@, family)
            .with("model_effort"@, effort)
            .with("approval_policy"@, policy)
            .with("round"@, JsonView::Unsigned(round)),
        plugins,
    )
}

/// What goes with the request of a round. The names of the provider's family, of the
/// effort and of the approval policy are values of their own.
pub fn request_metadata(family: Json, effort: Json, policy: Json, round: u64, hooks: &PluginHooks)
    -> (r: Json)
    ensures
        r@ == metadata(
            family@,
            effort@,
            policy@,
            round as nat,
            json::object_view(hooks.request_metadata@),
        ),
{
    let mut r = Json::object()
        .with("provider_family", family)
        .with("model_effort", effort)
        .with("approval_policy", policy)
        .with("round", Json::Unsigned(round));
    let ghost first = r@;
    let ghost all = hooks.request_metadata@;
    let mut i: usize = 0;
    assert(all.take(0) =~= seq![]);
    assert(r@ == overlaid(first, json::object_view(all.take(0)))) by {
        if let JsonView::Object(m) = first {
            assert(m.union_prefer_right(Map::empty()) =~= m);
        }
    }
    while i < hooks.request_metadata.len()
        invariant
            i <= all.len(),
            first is Object,
            all == hooks.request_metadata@,
            r@ == overlaid(first, json::object_view(all.take(i as int))),
        decreases all.len() - i,
    {
        assert(all.take(i + 1).drop_last() =~= all.take(i as int));
        let ghost before = json::object_view(all.take(i as int));
        let ghost key = all[i as int].0@;
        let ghost value = all[i as int].1@;
        r = r.with(
            hooks.request_metadata[i].0.as_str(),
            hooks.request_metadata[i].1.clone(),
        );
        proof {
            let m = first->Object_0;
            assert(m.union_prefer_right(before).insert(key, value) =~= m.union_prefer_right(
                before.insert(key, value),
            ));
        }
        i += 1;
    }
    assert(all.take(i as int) =~= all);
    r
}

/// A request, and what is told of how it was prepared.
#[derive(Debug)]
pub struct PreparedProviderTurn {
    pub request: TurnRequest,
    pub context_event: SessionEvent,
}

/// Prepares the request of a round, given the transcript as it is sent, the system
/// prompt, what goes with the request, and the pictures of the prompt.
pub fn prepare(
    session_id: SessionId,
    model: &str,
    system_prompt: String,
    context: PreparedContext,
    images: Vec<ImageAttachment>,
    hooks: &PluginHooks,
    metadata: Json,
) -> (r: PreparedProviderTurn)
    ensures
        r.request@ == (RequestView {
            session_id,
            model: model@,
            prompt: context@.prompt,
            system_prompt: Some(system_prompt@),
            messages: with_images(
                plain_messages(lower_roles(context@.messages), context@.messages),
                image_views(images@),
            ),
            tool_names: advertised(
                names::all_names(),
                text::views(hooks.advertised_tool_names@),
            ),
            metadata: metadata@,
            images: image_views(images@),
        }),
        r.context_event@ == (EventView::ContextPrepared {
            session_id,
            token_count: context@.token_count,
            original_token_count: context@.original_token_count,
            compacted: context@.compacted,
            summary: context@.summary,
        }),
{
    let messages = request_messages(&context.messages, &images);
    let context_event = SessionEvent::ContextPrepared {
        session_id,
        token_count: context.token_count,
        original_token_count: context.original_token_count,
        compacted: context.compacted,
        summary: context.summary,
    };
    let request = TurnRequest {
        session_id,
        model: model.to_string(),
        prompt: context.prompt,
        system_prompt: Some(system_prompt),
        messages,
        tool_names: advertised_tool_names_for_hooks(hooks),
        metadata,
        images,
    };
    PreparedProviderTurn { request, context_event }
}

// ---------------------------------------------------------------------------
// Prompts with pictures
// ---------------------------------------------------------------------------

/// A prompt, and the pictures that go with it.
#[derive(Debug)]
pub struct MultimodalPrompt {
    pub text: String,
    pub images: Vec<ImageAttachment>,
}

/// The content of a `MultimodalPrompt`.
pub struct MultimodalView {
    pub text: Seq<char>,
    pub images: Seq<ImageView>,
}

impl View for MultimodalPrompt {
    type V = MultimodalView;

    open spec fn view(&self) -> MultimodalView {
        MultimodalView { text: self.text@, images: image_views(self.images@) }
    }
}

/// A number that may be left out or null, and must fit in 32 bits; nothing at all if it
/// is something else.
pub open spec fn optional_number(v: JsonView, i: int, n: nat, name: Seq<char>) -> Option<
    Option<u32>,
> {
    match json::record_field(v, i, n, name) {
        Some(JsonView::Null) => Some(None),
        Some(JsonView::Unsigned(x)) if x <= u32::MAX => Some(Some(x as u32)),
        Some(_) => None,
        None => if v is Object {
            Some(None)
        } else {
            None
        },
    }
}

/// The picture that a JSON value denotes.
pub open spec fn image_of(v: JsonView) -> Option<ImageView> {
    match (
        json::record_optional(v, 0, 6, "path"@),
        json::record_text(v, 1, 6, "mime_type"@),
        json::record_text(v, 2, 6, "base64_data"@),
        optional_number(v, 3, 6, "width"@),
        optional_number(v, 4, 6, "height"@),
        json::record_field(v, 5, 6, "file_size"@),
    ) {
        (
            Some(path),
            Some(mime_type),
            Some(base64_data),
            Some(width),
            Some(height),
            Some(JsonView::Unsigned(file_size)),
        ) => Some(
            ImageView {
                path,
                mime_type,
                base64_data,
                width,
                height,
                file_size: file_size as u64,
            },
        ),
        _ => None,
    }
}

pub open spec fn images_of(items: Seq<JsonView>) -> Option<Seq<ImageView>>
    decreases items.len(),
{
    if items.len() == 0 {
        Some(seq![])
    } else {
        match (images_of(items.drop_last()), image_of(items.last())) {
            (Some(before), Some(i)) => Some(before.push(i)),
            _ => None,
        }
    }
}

/// The pictures that a JSON value denotes; none if one of them is no picture.
pub open spec fn image_list(v: Option<JsonView>) -> Seq<ImageView> {
    match v {
        Some(JsonView::Array(items)) => match images_of(items) {
            Some(images) => images,
            None => seq![],
        },
        _ => seq![],
    }
}

/// The prompt that a text with the mark of a multimodal message denotes, given how what
/// follows the mark reads as JSON.
pub open spec fn multimodal(prompt: Seq<char>, payload: Result<JsonView, Seq<char>>)
    -> MultimodalView {
    match payload {
        Ok(v) => MultimodalView {
            text: match json::text_field(v, "text"@) {
                Some(t) => t,
                None => seq![],
            },
            images: image_list(json::field(v, "images"@)),
        },
        Err(_) => MultimodalView { text: prompt, images: seq![] },
    }
}

/// The prompt that the user has sent: plain text, or text and pictures behind a mark.
pub open spec fn user_prompt(prompt: Seq<char>) -> MultimodalView {
    let mark = "__MULTIMODAL_MESSAGE__:"@;
    if text::starts_with(prompt, mark) {
        multimodal(prompt, json::json_parse(prompt.skip(mark.len() as int)))
    } else {
        MultimodalView { text: prompt, images: seq![] }
    }
}

fn read_number(v: &Json, i: usize, name: &str) -> (r: Option<Option<u32>>)
    ensures
        r == optional_number(v@, i as int, 6, name@),
{
    match v.record_member(i, 6, name) {
        Some(Json::Null) => Some(None),
        Some(Json::Unsigned(x)) => if *x <= u32::MAX as u64 {
            Some(Some(*x as u32))
        } else {
            None
        },
        Some(_) => None,
        None => match v {
            Json::Object(_) => Some(None),
            _ => None,
        },
    }
}

fn read_image(v: &Json) -> (r: Option<ImageAttachment>)
    ensures
        match r {
            Some(i) => image_of(v@) == Some(i@),
            None => image_of(v@) is None,
        },
{
    let size = match v.record_member(5, 6, "file_size") {
        Some(Json::Unsigned(x)) => *x,
        _ => {
            return None;
        },
    };
    match (
        v.record_optional_string(0, 6, "path"),
        v.record_string(1, 6, "mime_type"),
        v.record_string(2, 6, "base64_data"),
        read_number(v, 3, "width"),
        read_number(v, 4, "height"),
    ) {
        (Some(path), Some(mime_type), Some(base64_data), Some(width), Some(height)) => Some(
            ImageAttachment { path, mime_type, base64_data, width, height, file_size: size },
        ),
        _ => None,
    }
}

fn read_images(v: Option<&Json>) -> (out: Vec<ImageAttachment>)
    ensures
        image_views(out@) == image_list(
            match v {
                Some(j) => Some(j@),
                None => None,
            },
        ),
{
    let none = no_images();
    let items = match v {
        Some(Json::Array(items)) => items,
        _ => {
            return none;
        },
    };
    let ghost all = json::array_view(items@);
    proof {
        json::lemma_array_view(items@);
    }
    let mut out = no_images();
    let mut i: usize = 0;
    while i < items.len()
        invariant
            i <= items@.len(),
            all == json::array_view(items@),
            all.len() == items@.len(),
            forall|k: int| 0 <= k < items@.len() ==> #[trigger] all[k] == items@[k]@,
            v == Some(&Json::Array(*items)),
            image_views(none@) == Seq::<ImageView>::empty(),
            images_of(all.take(i as int)) == Some(image_views(out@)),
        decreases items@.len() - i,
    {
        assert(all.take(i + 1).drop_last() =~= all.take(i as int));
        assert(all.take(i + 1).last() == items@[i as int]@);
        match read_image(&items[i]) {
            Some(image) => {
                let ghost before = image_views(out@);
                let ghost shown = image@;
                out.push(image);
                assert(image_views(out@) =~= before.push(shown));
            },
            None => {
                proof {
                    lemma_no_images(all, i + 1);
                }
                return none;
            },
        }
        i += 1;
    }
    assert(all.take(i as int) =~= all);
    out
}

proof fn lemma_no_images(items: Seq<JsonView>, n: int)
    requires
        0 <= n <= items.len(),
        images_of(items.take(n)) is None,
    ensures
        images_of(items) is None,
    decreases items.len() - n,
{
    if n == items.len() {
        assert(items.take(n) =~= items);
    } else {
        assert(items.take(n + 1).drop_last() =~= items.take(n));
        lemma_no_images(items, n + 1);
    }
}

/// No pictures.
pub fn no_images() -> (r: Vec<ImageAttachment>)
    ensures
        image_views(r@) == Seq::<ImageView>::empty(),
{
    let images: Vec<ImageAttachment> = Vec::new();
    assert(image_views(images@) =~= seq![]);
    images
}

/// The prompt behind the mark of a multimodal message, given how it reads as JSON.
pub fn multimodal_from(prompt: &str, payload: Result<Json, String>) -> (r: MultimodalPrompt)
    ensures
        r@ == multimodal(
            prompt@,
            match payload {
                Ok(j) => Ok(j@),
                Err(e) => Err(e@),
            },
        ),
{
    match payload {
        Ok(value) => {
            let text = match value.get_string("text") {
                Some(t) => t,
                None => String::new(),
            };
            let images = read_images(value.get("images"));
            MultimodalPrompt { text, images }
        },
        Err(_) => {
            MultimodalPrompt { text: prompt.to_string(), images: no_images() }
        },
    }
}

/// The prompt that the user has sent.
pub fn parse_multimodal_prompt(prompt: &str) -> (r: MultimodalPrompt)
    ensures
        r@ == user_prompt(prompt@),
{
    match text::strip_prefix(prompt, "__MULTIMODAL_MESSAGE__:") {
        Some(payload) => multimodal_from(prompt, json::parse(payload.as_str())),
        None => {
            MultimodalPrompt { text: prompt.to_string(), images: no_images() }
        },
    }
}

/// Every tool of the library is advertised, whatever plugins add, and no name stands
/// there twice.
pub proof fn own_tools_are_advertised(plugins: Seq<Seq<char>>)
    ensures
        names::all_names().is_prefix_of(advertised(names::all_names(), plugins)),
        advertised(names::all_names(), plugins).no_duplicates(),
    decreases plugins.len(),
{
    let own = names::all_names();
    if plugins.len() == 0 {
        assert forall|i: int, j: int| 0 <= i < own.len() && 0 <= j < own.len() && i != j implies own[i]
            != own[j] by {
            let a = names::all_tools()[i];
            let b = names::all_tools()[j];
            if own[i] == own[j] {
                names::tool_names_are_distinct(a, b);
            }
        }
        assert(own.no_duplicates());
    } else {
        own_tools_are_advertised(plugins.drop_last());
    }
}

// ---------------------------------------------------------------------------
// What a request is made of
// ---------------------------------------------------------------------------

/// The layers of a prompt come in order: what all sessions are told, the environment, what
/// the settings say, what the plugins say, and last the hint on effort, where there is one.
/// Only a provider without tools of its own is told how to write its calls, and which tools
/// there are.
pub proof fn layers_come_in_order(
    family: ProviderFamily,
    env: EnvironmentView,
    configured: Seq<Seq<char>>,
    plugins: Seq<Seq<char>>,
    hint: Option<Seq<char>>,
    docs: Seq<char>,
)
    ensures
        ({
            let layers = prompt_layers(family, env, configured, plugins, hint, docs);
            let n = configured.len();
            let m = plugins.len();
            &&& layers.len() == 2 + n + m + (if hint is Some {
                1nat
            } else {
                0nat
            })
            &&& layers[0].name == "base"@
            &&& family == ProviderFamily::Generic ==> layers[0].content == ENVELOPE_RULES@ + docs
                + TOOL_RULES@
            &&& family != ProviderFamily::Generic ==> layers[0].content == NATIVE_PREAMBLE@
            &&& layers[1] == (LayerView {
                name: "environment"@,
                content: environment_text(env),
            })
            &&& forall|i: int|
                0 <= i < n ==> #[trigger] layers[2 + i] == (LayerView {
                    name: "configured"@,
                    content: configured[i],
                })
            &&& forall|i: int|
                0 <= i < m ==> #[trigger] layers[2 + n + i] == (LayerView {
                    name: "plugin"@,
                    content: plugins[i],
                })
            &&& hint matches Some(h) ==> layers.last() == (LayerView {
                name: "effort"@,
                content: h,
            })
        }),
{
}

/// A prompt is its layers with an empty line between each two; blank ones are left out.
pub proof fn blank_layers_are_left_out(layers: Seq<LayerView>, layer: LayerView)
    ensures
        text::trimmed(layer.content).len() == 0 ==> composed(layers.push(layer)) == composed(
            layers,
        ),
        text::trimmed(layer.content).len() > 0 && shown_layers(layers).len() == 0 ==> composed(
            layers.push(layer),
        ) == layer.content,
        text::trimmed(layer.content).len() > 0 && shown_layers(layers).len() > 0 ==> composed(
            layers.push(layer),
        ) == composed(layers) + "\n\n"@ + layer.content,
{
    assert(layers.push(layer).drop_last() =~= layers);
    let before = shown_layers(layers);
    assert(before.push(layer.content).drop_last() =~= before);
}

/// The environment is told as it is: the model, both directories, whether there is a
/// repository, the platform and the date, each on its line.
pub proof fn the_environment_is_told(env: EnvironmentView)
    ensures
        environment_text(env) == "Environment:\n<env>\n  Model: "@ + env.model
            + "\n  Working directory: "@ + env.cwd + "\n  Workspace root: "@ + env.workspace_root
            + "\n  Is workspace a git repo: "@ + (if env.is_git_repo {
            "yes"@
        } else {
            "no"@
        }) + "\n  Platform: "@ + env.platform + "\n  Current date (UTC): "@ + env.date_utc
            + "\n</env>"@,
{
}

/// Pictures go with the last message of the user, behind what it holds; all other messages
/// stay as they are.
pub proof fn pictures_go_with_the_last_message_of_the_user(
    before: Seq<ModelMessageView>,
    m: ModelMessageView,
    behind: Seq<ModelMessageView>,
    images: Seq<ImageView>,
)
    requires
        m.role == "user"@,
        images.len() > 0,
        forall|i: int| 0 <= i < behind.len() ==> (#[trigger] behind[i]).role != "user"@,
    ensures
        with_images(before.push(m) + behind, images) == before.push(
            ModelMessageView {
                role: m.role,
                parts: m.parts + images.map_values(|i: ImageView| PartView::Image { image: i }),
            },
        ) + behind,
        with_images(behind, images) == behind,
        with_images(behind, seq![]) == behind,
    decreases behind.len(),
{
    let shown = ModelMessageView {
        role: m.role,
        parts: m.parts + images.map_values(|i: ImageView| PartView::Image { image: i }),
    };
    let all = before.push(m) + behind;
    if behind.len() == 0 {
        assert(all =~= before.push(m));
        assert(all.drop_last() =~= before);
        assert(before.push(shown) + behind =~= before.push(shown));
    } else {
        let front = behind.drop_last();
        assert(behind[behind.len() - 1].role != "user"@);
        assert forall|i: int| 0 <= i < front.len() implies (#[trigger] front[i]).role != "user"@ by {
            assert(behind[i].role != "user"@);
        }
        pictures_go_with_the_last_message_of_the_user(before, m, front, images);
        assert(all.drop_last() =~= before.push(m) + front);
        assert((before.push(shown) + front).push(behind.last()) =~= before.push(shown) + behind);
        assert(front.push(behind.last()) =~= behind);
    }
}

/// The tools that plugins name are advertised behind the own ones, each once.
pub proof fn tools_of_plugins_are_advertised_once(
    own: Seq<Seq<char>>,
    plugins: Seq<Seq<char>>,
    name: Seq<char>,
)
    ensures
        ({
            let before = advertised(own, plugins);
            let after = advertised(own, plugins.push(name));
            &&& before.contains(name) ==> after == before
            &&& !before.contains(name) ==> after == before.push(name)
            &&& own.is_prefix_of(before)
        }),
    decreases plugins.len(),
{
    assert(plugins.push(name).drop_last() =~= plugins);
    if plugins.len() > 0 {
        tools_of_plugins_are_advertised_once(own, plugins.drop_last(), plugins.last());
        assert(plugins.drop_last().push(plugins.last()) =~= plugins);
    }
}

/// What goes with a request is the provider's family, the effort, the policy and the round,
/// each under its name, unless a plugin sets it, and all that plugins set.
pub proof fn plugins_set_what_goes_with_a_request(
    family: JsonView,
    effort: JsonView,
    policy: JsonView,
    round: nat,
    plugins: Map<Seq<char>, JsonView>,
    name: Seq<char>,
)
    ensures
        ({
            let v = metadata(family, effort, policy, round, plugins);
            &&& plugins.dom().contains(name) ==> json::field(v, name) == Some(plugins[name])
            &&& !plugins.dom().contains("provider_family"@) ==> json::field(
                v,
                "provider_family"@,
            ) == Some(family)
            &&& !plugins.dom().contains("model_effort"@) ==> json::field(v, "model_effort"@)
                == Some(effort)
            &&& !plugins.dom().contains("approval_policy"@) ==> json::field(v, "approval_policy"@)
                == Some(policy)
            &&& !plugins.dom().contains("round"@) ==> json::unsigned_field(v, "round"@) == Some(
                round,
            )
        }),
{
    reveal_strlit("provider_family");
    reveal_strlit("model_effort");
    reveal_strlit("approval_policy");
    reveal_strlit("round");
    assert("provider_family"@.len() == 15 && "provider_family"@[0] == 'p' && "model_effort"@.len()
        == 12 && "approval_policy"@.len() == 15 && "approval_policy"@[0] == 'a' && "round"@.len()
        == 5);
}

/// A prompt is taken as it is, unless it begins with the mark of one with pictures: then the
/// rest is read as JSON, and the text and the pictures in it are taken.
pub proof fn a_prompt_is_taken_as_it_is(
    prompt: Seq<char>,
    rest: Seq<char>,
    v: JsonView,
    said: Seq<char>,
)
    ensures
        !text::starts_with(prompt, "__MULTIMODAL_MESSAGE__:"@) ==> user_prompt(prompt) == (
        MultimodalView { text: prompt, images: seq![] }),
        json::json_parse(rest) == Ok::<JsonView, Seq<char>>(v) && json::text_field(v, "text"@)
            == Some(said) ==> user_prompt("__MULTIMODAL_MESSAGE__:"@ + rest).text == said,
        json::json_parse(rest) is Err ==> user_prompt("__MULTIMODAL_MESSAGE__:"@ + rest) == (
        MultimodalView { text: "__MULTIMODAL_MESSAGE__:"@ + rest, images: seq![] }),
{
    let mark = "__MULTIMODAL_MESSAGE__:"@;
    assert((mark + rest).subrange(0, mark.len() as int) =~= mark);
    assert((mark + rest).skip(mark.len() as int) =~= rest);
}

/// The pictures of a prompt are those of its list, one for each item, in order; a list with
/// an item that is none has no pictures at all.
pub proof fn pictures_are_read_item_by_item(items: Seq<JsonView>)
    ensures
        images_of(items) matches Some(all) ==> all.len() == items.len() && forall|i: int|
            0 <= i < items.len() ==> image_of(#[trigger] items[i]) == Some(all[i]),
        (forall|i: int| 0 <= i < items.len() ==> image_of(#[trigger] items[i]) is Some)
            ==> images_of(items) is Some,
    decreases items.len(),
{
    if items.len() > 0 {
        let front = items.drop_last();
        pictures_are_read_item_by_item(front);
        assert(forall|i: int| 0 <= i < front.len() ==> front[i] == items[i]);
        assert(items[items.len() - 1] == items.last());
    }
}

/// The messages of a context are sent with their roles and their contents, in order.
pub proof fn messages_are_sent_with_their_roles(
    roles: Seq<Seq<char>>,
    messages: Seq<ContextMessageView>,
    i: int,
)
    requires
        0 <= i < messages.len(),
    ensures
        plain_messages(roles, messages).len() == messages.len(),
        plain_messages(roles, messages)[i].role == roles[i],
        plain_messages(roles, messages)[i].parts == seq![
            PartView::Text { text: messages[i].content },
        ],
        lower_roles(messages)[i] == text::lowercase(messages[i].role),
{
}

} // verus!
