//! Names for sessions, and descriptions of pull requests, that a model is asked for.
use vstd::prelude::*;

use crate::provider::sse;
use crate::runtime::events::{EventView, SessionEvent};
use crate::text;
use crate::text_laws;
use crate::text::CharClass;

verus! {

/// The providers that can be asked for a name.
#[derive(Debug, Clone, Copy, PartialEq, Eq, Structural, Hash)]
pub enum ProviderKind {
    Claude,
    Codex,
    Copilot,
}

/// How sessions are named.
#[derive(Debug)]
pub struct SessionNamingConfig {
    pub provider: ProviderKind,
    /// The model that is asked, which should be a cheap one.
    pub model: String,
    pub enabled: bool,
    /// Where the provider works, if that matters.
    pub cwd: Option<String>,
}

impl Default for SessionNamingConfig {
    fn default() -> (r: SessionNamingConfig)
        ensures
            r.provider == ProviderKind::Claude,
            r.model@ == "haiku"@,
            r.enabled,
            r.cwd is None,
    {
        SessionNamingConfig {
            provider: ProviderKind::Claude,
            model: "haiku".to_string(),
            enabled: true,
            cwd: None,
        }
    }
}

/// Makes up names for sessions.
pub trait SessionNamer {
    /// The name for a session with these prompts, or why there is none.
    fn generate_name(&self, prompts: &Vec<String>) -> (r: Result<String, String>);
}

// ---------------------------------------------------------------------------
// Prompts
// ---------------------------------------------------------------------------

/// How many bytes of a prompt the model is shown.
pub const MAX_PROMPT_BYTES: usize = 2000;

/// Whether the first bytes of a prompt that are shown end with a character.
pub open spec fn head_is_text(p: Seq<char>) -> bool {
    text::byte_len(p) > MAX_PROMPT_BYTES ==> text::byte_len(
        text::capped(p, MAX_PROMPT_BYTES as nat),
    ) == MAX_PROMPT_BYTES
}

/// A prompt as the model is shown it.
pub open spec fn shown_prompt(p: Seq<char>) -> Seq<char> {
    if text::byte_len(p) > MAX_PROMPT_BYTES {
        text::capped(p, MAX_PROMPT_BYTES as nat) + "..."@
    } else {
        p
    }
}

/// The first two prompts as the model is shown them.
pub open spec fn shown_prompts(prompts: Seq<Seq<char>>) -> Seq<char> {
    if prompts.len() == 0 {
        seq![]
    } else if prompts.len() == 1 {
        shown_prompt(prompts[0])
    } else {
        shown_prompt(prompts[0]) + "\n\n"@ + shown_prompt(prompts[1])
    }
}

/// What the model is told, before what the user has asked for.
pub const NAMING_RULES: &'static str = "You are a title generator. You output ONLY a thread title. Nothing else.\n\n<task>\nGenerate a brief title that would help the user find this conversation later.\nYour output must be a single line of AT MOST 3 words, no more than 50 characters, with no explanations or quotes.\n</task>\n\n<rules>\n- Use at most 3 words. Prefer 2-3 punchy words.\n- Use the same language as the user request.\n- Focus on the main topic or change the user needs.\n- Never include tool names.\n- Keep exact technical terms, numbers, filenames, and HTTP codes.\n- Do not answer questions or mention that you are generating a title.\n- Always output something meaningful, even if the input is minimal.\n</rules>\n\nUser request(s):\n";

/// What the model is told and asked.
pub fn naming_prompt(prompt_content: &str) -> (r: String)
    ensures
        r@ == NAMING_RULES@ + prompt_content@,
{
    text::cat2(
        NAMING_RULES,
        prompt_content,
    )
}

fn show_prompt(p: &str) -> (r: String)
    requires
        head_is_text(p@),
    ensures
        r@ == shown_prompt(p@),
{
    let (head, cut) = text::cap_bytes(p, MAX_PROMPT_BYTES);
    if cut {
        text::cat2(head.as_str(), "...")
    } else {
        p.to_string()
    }
}

/// What has to be done to name a session.
#[derive(Debug)]
pub enum NamingStep {
    /// Nothing: this is the name.
    Named(String),
    /// Ask the model this.
    Ask(String),
}

/// Makes up names with a model.
#[derive(Debug)]
pub struct ModelBasedNamer {
    pub config: SessionNamingConfig,
}

impl ModelBasedNamer {
    pub fn new(config: SessionNamingConfig) -> (r: ModelBasedNamer)
        ensures
            r.config == config,
    {
        ModelBasedNamer { config }
    }

    /// What has to be done to name a session with these prompts.
    pub fn begin(&self, prompts: &Vec<String>) -> (r: NamingStep)
        requires
            self.config.enabled ==> forall|i: int|
                0 <= i < 2 && i < prompts@.len() ==> head_is_text((#[trigger] prompts@[i])@),
        ensures
            match r {
                NamingStep::Named(name) => (!self.config.enabled || prompts@.len() == 0)
                    && name@ == "New Session"@,
                NamingStep::Ask(prompt) => self.config.enabled && prompts@.len() > 0 && prompt@
                    == NAMING_RULES@ + shown_prompts(text::views(prompts@)),
            },
    {
        if !self.config.enabled || prompts.len() == 0 {
            return NamingStep::Named("New Session".to_string());
        }
        let first = show_prompt(prompts[0].as_str());
        let content = if prompts.len() > 1 {
            text::cat3(first.as_str(), "\n\n", show_prompt(prompts[1].as_str()).as_str())
        } else {
            first
        };
        NamingStep::Ask(naming_prompt(content.as_str()))
    }
}

// ---------------------------------------------------------------------------
// Replies
// ---------------------------------------------------------------------------

/// A model's reply, as far as it has come.
#[derive(Debug)]
pub struct ReplyText {
    pub text: String,
    /// Whether the reply has ended.
    pub ended: bool,
}

/// The reply with an event.
pub open spec fn reply_text(before: Seq<char>, event: EventView) -> Seq<char> {
    match event {
        EventView::TextDelta { text, .. } => before + text,
        _ => before,
    }
}

impl ReplyText {
    pub fn new() -> (r: ReplyText)
        ensures
            r.text@ == Seq::<char>::empty(),
            !r.ended,
    {
        let r = ReplyText { text: String::new(), ended: false };
        assert(r.text@ =~= Seq::<char>::empty());
        r
    }

    /// An event of the provider has come.
    pub fn hear(&mut self, event: &SessionEvent)
        requires
            !old(self).ended,
        ensures
            final(self).text@ == reply_text(old(self).text@, event@),
            final(self).ended == (event@ is Result),
    {
        match event {
            SessionEvent::TextDelta { text, .. } => {
                self.text.push_str(text.as_str());
            },
            SessionEvent::Result { .. } => {
                self.ended = true;
            },
            _ => {},
        }
    }
}

/// The text without a character around it.
pub open spec fn without(s: Seq<char>, c: char) -> Seq<char> {
    text::trim_both(s, CharClass::Just(c))
}

/// The first line of a reply, or a name where there is none.
pub open spec fn first_line(s: Seq<char>) -> Seq<char> {
    let lines = text::lines(s);
    if lines.len() == 0 {
        "New Session"@
    } else {
        lines[0]
    }
}

/// The title in a reply: its first line, without quotes around it and periods at its end.
pub open spec fn cleaned_title(response: Seq<char>) -> Seq<char> {
    let line = text::trimmed(first_line(text::trimmed(response)));
    let plain = text::trim_end(without(without(line, '"'), '\''), CharClass::Just('.'));
    text::trimmed(without(without(plain, '"'), '\''))
}

/// The title in a reply.
pub fn clean_title(response: &str) -> (r: String)
    ensures
        r@ == cleaned_title(response@),
{
    let all = text::trim(response);
    let lines = text::lines_of(all.as_str());
    assert(text::views(lines@).len() == lines@.len());
    let line = if lines.len() == 0 {
        "New Session".to_string()
    } else {
        lines[0].clone()
    };
    let line = text::trim(line.as_str());
    let line = text::trim_class(line.as_str(), CharClass::Just('"'));
    let line = text::trim_class(line.as_str(), CharClass::Just('\''));
    let line = text::trim_end_class(line.as_str(), CharClass::Just('.'));
    let line = text::trim_class(line.as_str(), CharClass::Just('"'));
    let line = text::trim_class(line.as_str(), CharClass::Just('\''));
    text::trim(line.as_str())
}

/// The first words of a name, without punctuation at its end.
pub open spec fn limited(name: Seq<char>, max_words: nat) -> Seq<char> {
    let ws = text::words(name);
    let kept = if ws.len() <= max_words {
        ws
    } else {
        ws.take(max_words as int)
    };
    text::trim_end(text::join(kept, " "@), CharClass::TitleEnd)
}

/// The first words of a name, without punctuation at its end.
pub fn limit_words(name: &str, max_words: usize) -> (r: String)
    ensures
        r@ == limited(name@, max_words as nat),
{
    let mut ws = text::split_whitespace(name);
    let ghost all = text::views(ws@);
    if ws.len() > max_words {
        ws.truncate(max_words);
        assert(text::views(ws@) =~= all.take(max_words as int));
    }
    let joined = text::join_strings(ws.as_slice(), " ");
    text::trim_end_class(joined.as_str(), CharClass::TitleEnd)
}

/// The name of a session, given the model's reply.
pub open spec fn session_name(response: Seq<char>) -> Seq<char> {
    let name = limited(cleaned_title(response), 3);
    if name.len() == 0 || name.len() > 50 {
        "New Session"@
    } else {
        name
    }
}

/// The name of a session, given the model's reply.
pub fn finish_name(response: &str) -> (r: String)
    ensures
        r@ == session_name(response@),
{
    let title = clean_title(response);
    let name = limit_words(title.as_str(), 3);
    let cs = text::chars_of(name.as_str());
    if cs.len() == 0 || cs.len() > 50 {
        "New Session".to_string()
    } else {
        name
    }
}

// ---------------------------------------------------------------------------
// Pull requests
// ---------------------------------------------------------------------------

/// How many characters of a diff the model is shown.
pub const MAX_DIFF_CHARS: usize = 12000;

/// How many characters a description has at most.
pub const MAX_BODY_CHARS: usize = 4000;

/// The first characters of a text, with a mark where something is left out.
pub open spec fn cut(s: Seq<char>, limit: nat) -> Seq<char> {
    if s.len() > limit {
        sse::first_chars(s, limit) + "\n… [truncated]"@
    } else {
        s
    }
}

/// The first characters of a text, with a mark where something is left out.
pub fn truncate_chars(s: &str, max_chars: usize) -> (r: String)
    ensures
        r@ == cut(s@, max_chars as nat),
{
    let cs = text::chars_of(s);
    if cs.len() > max_chars {
        text::cat2(sse::take_chars(s, max_chars).as_str(), "\n… [truncated]")
    } else {
        s.to_string()
    }
}

/// What the model is told about a description.
pub const DESCRIPTION_RULES: &'static str = "You are writing a GitHub pull request description. Output ONLY the PR body.\n\nRules:\n- Be concise and accurate.\n- Describe what changed, not implementation speculation.\n- Use this exact structure:\nSummary:\n- <1-3 short bullets>\n\nTesting:\n- Not run (not requested)\n\n- Do not include a title, code fences, or extra commentary.\n\nPR title / commit message:\n";

/// What the model is told and asked to describe a pull request.
pub open spec fn description_prompt(title: Seq<char>, diff: Seq<char>) -> Seq<char> {
    DESCRIPTION_RULES@ + title + "\n\nGit diff summary:\n"@ + cut(diff, MAX_DIFF_CHARS as nat)
}

/// What the model is told and asked to describe a pull request.
pub fn pr_description_prompt(title: &str, diff_summary: &str) -> (r: String)
    ensures
        r@ == description_prompt(title@, diff_summary@),
{
    let diff = truncate_chars(diff_summary, MAX_DIFF_CHARS);
    text::cat4(
        DESCRIPTION_RULES,
        title,
        "\n\nGit diff summary:\n",
        diff.as_str(),
    )
}

/// The lines that do not open or close a block of code.
pub open spec fn without_fences(lines: Seq<Seq<char>>) -> Seq<Seq<char>>
    decreases lines.len(),
{
    if lines.len() == 0 {
        seq![]
    } else {
        let before = without_fences(lines.drop_last());
        if text::starts_with(text::trim_start(lines.last(), CharClass::Space), "```"@) {
            before
        } else {
            before.push(lines.last())
        }
    }
}

/// The description in a reply: without quotes and fences around it.
pub open spec fn cleaned_description(response: Seq<char>) -> Seq<char> {
    let bare = text::trimmed(without(text::trimmed(response), '`'));
    let body = text::trimmed(without(without(bare, '"'), '\''));
    let plain = if text::starts_with(body, "```"@) {
        text::trimmed(text::join(without_fences(text::lines(body)), "\n"@))
    } else {
        body
    };
    text::trimmed(cut(plain, MAX_BODY_CHARS as nat))
}

fn drop_fences(s: &str) -> (out: Vec<String>)
    ensures
        text::views(out@) == without_fences(text::lines(s@)),
{
    let lines = text::lines_of(s);
    let ghost all = text::views(lines@);
    let mut out: Vec<String> = Vec::new();
    let mut i: usize = 0;
    assert(text::views(out@) =~= without_fences(all.take(0)));
    while i < lines.len()
        invariant
            i <= lines@.len(),
            all == text::views(lines@),
            text::views(out@) == without_fences(all.take(i as int)),
        decreases lines@.len() - i,
    {
        assert(all.take(i + 1).drop_last() =~= all.take(i as int));
        assert(all.take(i + 1).last() == lines@[i as int]@);
        let start = text::trim_start_class(lines[i].as_str(), CharClass::Space);
        if !text::has_prefix(start.as_str(), "```") {
            let ghost before = text::views(out@);
            out.push(lines[i].clone());
            assert(text::views(out@) =~= before.push(lines@[i as int]@));
        }
        i += 1;
    }
    assert(all.take(i as int) =~= all);
    out
}

/// The description in a reply.
pub fn clean_pr_description(response: &str) -> (r: String)
    ensures
        r@ == cleaned_description(response@),
{
    let s = text::trim(response);
    let s = text::trim_class(s.as_str(), CharClass::Just('`'));
    let s = text::trim(s.as_str());
    let s = text::trim_class(s.as_str(), CharClass::Just('"'));
    let s = text::trim_class(s.as_str(), CharClass::Just('\''));
    let body = text::trim(s.as_str());
    let plain = if text::has_prefix(body.as_str(), "```") {
        let lines = drop_fences(body.as_str());
        let joined = text::join_strings(lines.as_slice(), "\n");
        text::trim(joined.as_str())
    } else {
        body
    };
    let short = truncate_chars(plain.as_str(), MAX_BODY_CHARS);
    text::trim(short.as_str())
}

/// The path of the file that a line of a diff begins with, if it begins one.
pub open spec fn changed_path(line: Seq<char>) -> Option<Seq<char>> {
    let l = text::trimmed(line);
    if text::starts_with(l, "diff --git "@) && text::words(l).len() > 3 {
        Some(text::trim_prefixes(text::words(l)[3], "b/"@))
    } else {
        None
    }
}

/// The paths of the first files of a diff, five at most.
pub open spec fn changed_paths(lines: Seq<Seq<char>>) -> Seq<Seq<char>>
    decreases lines.len(),
{
    if lines.len() == 0 {
        seq![]
    } else {
        let before = changed_paths(lines.drop_last());
        match changed_path(lines.last()) {
            Some(p) => if before.len() < 5 {
                before.push(p)
            } else {
                before
            },
            None => before,
        }
    }
}

/// The texts without those that follow an equal one.
pub open spec fn deduped(parts: Seq<Seq<char>>) -> Seq<Seq<char>>
    decreases parts.len(),
{
    if parts.len() == 0 {
        seq![]
    } else {
        let before = deduped(parts.drop_last());
        if before.len() > 0 && before.last() == parts.last() {
            before
        } else {
            before.push(parts.last())
        }
    }
}

/// The description that is used where no model is asked, or where it says nothing.
pub open spec fn plain_description(title: Seq<char>, diff: Seq<char>) -> Seq<char> {
    let changed = deduped(changed_paths(text::lines(diff)));
    let summary = if changed.len() == 0 {
        "- "@ + title
    } else {
        "- "@ + title + "\n- Updates "@ + text::join(changed, ", "@)
    };
    "Summary:\n"@ + summary + "\n\nTesting:\n- Not run (not requested)"@
}

fn read_changed_path(line: &str) -> (r: Option<String>)
    ensures
        text::opt(r) == changed_path(line@),
{
    proof {
        reveal_strlit("b/");
    }
    let l = text::trim(line);
    if !text::has_prefix(l.as_str(), "diff --git ") {
        return None;
    }
    let ws = text::split_whitespace(l.as_str());
    assert(text::views(ws@).len() == ws@.len());
    if ws.len() > 3 {
        Some(text::trim_start_matches(ws[3].as_str(), "b/"))
    } else {
        None
    }
}

fn read_changed_paths(diff: &str) -> (out: Vec<String>)
    ensures
        text::views(out@) == changed_paths(text::lines(diff@)),
{
    let lines = text::lines_of(diff);
    let ghost all = text::views(lines@);
    let mut out: Vec<String> = Vec::new();
    let mut i: usize = 0;
    assert(text::views(out@) =~= changed_paths(all.take(0)));
    while i < lines.len()
        invariant
            i <= lines@.len(),
            all == text::views(lines@),
            text::views(out@) == changed_paths(all.take(i as int)),
        decreases lines@.len() - i,
    {
        assert(all.take(i + 1).drop_last() =~= all.take(i as int));
        assert(all.take(i + 1).last() == lines@[i as int]@);
        assert(text::views(out@).len() == out@.len());
        match read_changed_path(lines[i].as_str()) {
            Some(p) => {
                if out.len() < 5 {
                    let ghost before = text::views(out@);
                    let ghost added = p@;
                    out.push(p);
                    assert(text::views(out@) =~= before.push(added));
                }
            },
            None => {},
        }
        i += 1;
    }
    assert(all.take(i as int) =~= all);
    out
}

fn dedup(parts: &Vec<String>) -> (out: Vec<String>)
    ensures
        text::views(out@) == deduped(text::views(parts@)),
{
    let ghost all = text::views(parts@);
    let mut out: Vec<String> = Vec::new();
    let mut i: usize = 0;
    assert(text::views(out@) =~= deduped(all.take(0)));
    while i < parts.len()
        invariant
            i <= parts@.len(),
            all == text::views(parts@),
            text::views(out@) == deduped(all.take(i as int)),
        decreases parts@.len() - i,
    {
        assert(all.take(i + 1).drop_last() =~= all.take(i as int));
        assert(all.take(i + 1).last() == parts@[i as int]@);
        assert(text::views(out@).len() == out@.len());
        let repeated = out.len() > 0 && text::same(
            out[out.len() - 1].as_str(),
            parts[i].as_str(),
        );
        if !repeated {
            let ghost before = text::views(out@);
            out.push(parts[i].clone());
            assert(text::views(out@) =~= before.push(parts@[i as int]@));
        }
        i += 1;
    }
    assert(all.take(i as int) =~= all);
    out
}

/// The description that is used where no model is asked, or where it says nothing.
pub fn fallback_pr_description(title: &str, diff_summary: &str) -> (r: String)
    ensures
        r@ == plain_description(title@, diff_summary@),
{
    let paths = read_changed_paths(diff_summary);
    let changed = dedup(&paths);
    assert(text::views(changed@).len() == changed@.len());
    let summary = if changed.len() == 0 {
        text::cat2("- ", title)
    } else {
        let joined = text::join_strings(changed.as_slice(), ", ");
        text::cat4("- ", title, "\n- Updates ", joined.as_str())
    };
    text::cat3("Summary:\n", summary.as_str(), "\n\nTesting:\n- Not run (not requested)")
}

/// What has to be done to describe a pull request: the description, where no model has to
/// be asked, or what it is asked.
pub fn begin_description(config: &SessionNamingConfig, title: &str, diff_summary: &str) -> (r:
    NamingStep)
    ensures
        match r {
            NamingStep::Named(body) => (!config.enabled || text::trimmed(diff_summary@).len() == 0)
                && body@ == plain_description(title@, diff_summary@),
            NamingStep::Ask(prompt) => config.enabled && text::trimmed(diff_summary@).len() > 0
                && prompt@ == description_prompt(title@, diff_summary@),
        },
{
    let diff = text::trim(diff_summary);
    if !config.enabled || text::is_blank_len(&diff) {
        NamingStep::Named(fallback_pr_description(title, diff_summary))
    } else {
        NamingStep::Ask(pr_description_prompt(title, diff_summary))
    }
}

/// The description of a pull request, given the model's reply.
pub fn finish_description(title: &str, diff_summary: &str, response: &str) -> (r: String)
    ensures
        r@ == if cleaned_description(response@).len() == 0 {
            plain_description(title@, diff_summary@)
        } else {
            cleaned_description(response@)
        },
{
    let body = clean_pr_description(response);
    if text::is_blank_len(&body) {
        fallback_pr_description(title, diff_summary)
    } else {
        body
    }
}

// ---------------------------------------------------------------------------
// Laws
// ---------------------------------------------------------------------------

proof fn lemma_words_push(s: Seq<char>, c: char)
    ensures
        text::is_space(c) ==> text::words(s.push(c)).len() == text::words(s).len(),
        text::words(s).len() <= text::words(s.push(c)).len() <= text::words(s).len() + 1,
        !text::is_space(c) && s.len() > 0 && !text::is_space(s.last()) ==> text::words(
            s.push(c),
        ).len() == text::words(s).len(),
{
    let k = CharClass::Space;
    let t = s.push(c);
    assert(t.drop_last() =~= s);
    text::lemma_split_nonempty(s, k);
    let before = text::split(s, k);
    if text::is_space(c) {
        assert(text::split(t, k) =~= before.push(seq![]));
        assert(text::split(t, k).drop_last() =~= before);
    } else {
        let after = text::split(t, k);
        assert(after =~= before.drop_last().push(before.last().push(c)));
        assert(after.drop_last() =~= before.drop_last());
        if s.len() > 0 && !text::is_space(s.last()) {
            text::lemma_split_nonempty(s.drop_last(), k);
            let earlier = text::split(s.drop_last(), k);
            assert(before =~= earlier.drop_last().push(earlier.last().push(s.last())));
        }
    }
}

/// The words of a beginning of a text are no more than those of the text.
proof fn lemma_words_of_prefix(s: Seq<char>, n: int)
    requires
        0 <= n <= s.len(),
    ensures
        text::words(s.take(n)).len() <= text::words(s).len(),
    decreases s.len() - n,
{
    if n == s.len() {
        assert(s.take(n) =~= s);
    } else {
        assert(s.take(n + 1) =~= s.take(n).push(s[n]));
        lemma_words_push(s.take(n), s[n]);
        lemma_words_of_prefix(s, n + 1);
    }
}

spec fn spaceless(w: Seq<char>) -> bool {
    forall|i: int| 0 <= i < w.len() ==> !text::is_space(#[trigger] w[i])
}

/// A word behind a text adds one word at most.
proof fn lemma_words_add(s: Seq<char>, w: Seq<char>)
    requires
        spaceless(w),
    ensures
        text::words(s + w).len() <= text::words(s).len() + 1,
    decreases w.len(),
{
    if w.len() == 0 {
        assert(s + w =~= s);
    } else {
        let shorter = w.drop_last();
        assert forall|i: int| 0 <= i < shorter.len() implies !text::is_space(
            #[trigger] shorter[i],
        ) by {
            assert(!text::is_space(w[i]));
        }
        assert(s + w =~= (s + shorter).push(w.last()));
        lemma_words_push(s + shorter, w.last());
        assert(!text::is_space(w[w.len() - 1]));
        if shorter.len() == 0 {
            assert(s + shorter =~= s);
        } else {
            lemma_words_add(s, shorter);
            assert((s + shorter).last() == shorter.last());
            assert(!text::is_space(shorter[shorter.len() - 1]));
        }
    }
}

proof fn lemma_split_spaceless(s: Seq<char>, i: int)
    requires
        0 <= i < text::split(s, CharClass::Space).len(),
    ensures
        spaceless(text::split(s, CharClass::Space)[i]),
    decreases s.len(),
{
    let k = CharClass::Space;
    if s.len() > 0 {
        text::lemma_split_nonempty(s.drop_last(), k);
        let before = text::split(s.drop_last(), k);
        let all = text::split(s, k);
        if i < before.len() - 1 || (i == before.len() - 1 && text::is_space(s.last())) {
            lemma_split_spaceless(s.drop_last(), i);
            assert(all[i] == before[i]);
        } else if text::is_space(s.last()) {
            assert(all[i] =~= seq![]);
        } else {
            lemma_split_spaceless(s.drop_last(), i);
            assert(all[i] =~= before.last().push(s.last()));
        }
    }
}

proof fn lemma_nonempty_spaceless(parts: Seq<Seq<char>>, i: int)
    requires
        0 <= i < text::nonempty(parts).len(),
        forall|j: int| 0 <= j < parts.len() ==> spaceless(#[trigger] parts[j]),
    ensures
        spaceless(text::nonempty(parts)[i]),
    decreases parts.len(),
{
    if parts.len() > 0 {
        let shorter = parts.drop_last();
        assert forall|j: int| 0 <= j < shorter.len() implies spaceless(#[trigger] shorter[j]) by {
            assert(spaceless(parts[j]));
        }
        if i < text::nonempty(shorter).len() {
            lemma_nonempty_spaceless(shorter, i);
        } else {
            assert(spaceless(parts[parts.len() - 1]));
        }
    }
}

proof fn lemma_words_of_join(ws: Seq<Seq<char>>)
    requires
        forall|j: int| 0 <= j < ws.len() ==> spaceless(#[trigger] ws[j]),
    ensures
        text::words(text::join(ws, " "@)).len() <= ws.len(),
    decreases ws.len(),
{
    reveal_strlit(" ");
    let empty = Seq::<char>::empty();
    assert(text::words(empty).len() == 0) by {
        reveal_with_fuel(text::nonempty, 2);
        assert(text::split(empty, CharClass::Space) =~= seq![seq![]]);
    }
    if ws.len() == 0 {
        assert(text::join(ws, " "@) =~= empty);
    } else if ws.len() == 1 {
        assert(spaceless(ws[0]));
        lemma_words_add(empty, ws[0]);
        assert(empty + ws[0] =~= ws[0]);
    } else {
        let shorter = ws.drop_last();
        assert forall|j: int| 0 <= j < shorter.len() implies spaceless(#[trigger] shorter[j]) by {
            assert(spaceless(ws[j]));
        }
        lemma_words_of_join(shorter);
        let s = text::join(shorter, " "@);
        lemma_words_push(s, ' ');
        assert(s + " "@ =~= s.push(' '));
        assert(spaceless(ws[ws.len() - 1]));
        lemma_words_add(s + " "@, ws.last());
    }
}

proof fn lemma_trim_end_prefix(s: Seq<char>, k: CharClass)
    ensures
        exists|n: int| 0 <= n <= s.len() && text::trim_end(s, k) == #[trigger] s.take(n),
    decreases s.len(),
{
    if s.len() > 0 && k.has(s.last()) {
        lemma_trim_end_prefix(s.drop_last(), k);
        let n = choose|n: int|
            0 <= n <= s.drop_last().len() && text::trim_end(s.drop_last(), k)
                == #[trigger] s.drop_last().take(n);
        assert(s.drop_last().take(n) =~= s.take(n));
    } else {
        assert(s.take(s.len() as int) =~= s);
    }
}

/// A name that has been limited has no more words than it may.
pub proof fn limited_names_have_few_words(name: Seq<char>, max_words: nat)
    ensures
        text::words(limited(name, max_words)).len() <= max_words,
{
    let k = CharClass::Space;
    let ws = text::words(name);
    let kept = if ws.len() <= max_words {
        ws
    } else {
        ws.take(max_words as int)
    };
    assert forall|j: int| 0 <= j < kept.len() implies spaceless(#[trigger] kept[j]) by {
        assert forall|i: int| 0 <= i < text::split(name, k).len() implies spaceless(
            #[trigger] text::split(name, k)[i],
        ) by {
            lemma_split_spaceless(name, i);
        }
        lemma_nonempty_spaceless(text::split(name, k), j);
        assert(kept[j] == ws[j]);
    }
    lemma_words_of_join(kept);
    let joined = text::join(kept, " "@);
    lemma_trim_end_prefix(joined, CharClass::TitleEnd);
    let n = choose|n: int|
        0 <= n <= joined.len() && text::trim_end(joined, CharClass::TitleEnd)
            == #[trigger] joined.take(n);
    lemma_words_of_prefix(joined, n);
}

/// The name of a session is never empty, and has 50 characters at most.
pub proof fn session_names_are_short(response: Seq<char>)
    ensures
        0 < session_name(response).len() <= 50,
{
    reveal_strlit("New Session");
}

/// A description has no more characters than it may, but for the mark where something is
/// left out.
pub proof fn descriptions_are_short(response: Seq<char>)
    ensures
        cleaned_description(response).len() <= MAX_BODY_CHARS + "\n… [truncated]"@.len(),
{
    let bare = text::trimmed(without(text::trimmed(response), '`'));
    let body = text::trimmed(without(without(bare, '"'), '\''));
    let plain = if text::starts_with(body, "```"@) {
        text::trimmed(text::join(without_fences(text::lines(body)), "\n"@))
    } else {
        body
    };
    lemma_trimmed_len(cut(plain, MAX_BODY_CHARS as nat));
}

proof fn lemma_trimmed_len(s: Seq<char>)
    ensures
        text::trimmed(s).len() <= s.len(),
{
    lemma_trim_start_len(s, CharClass::Space);
    let t = text::trim_start(s, CharClass::Space);
    lemma_trim_end_prefix(t, CharClass::Space);
}

proof fn lemma_trim_start_len(s: Seq<char>, k: CharClass)
    ensures
        text::trim_start(s, k).len() <= s.len(),
    decreases s.len(),
{
    if s.len() > 0 && k.has(s[0]) {
        lemma_trim_start_len(s.skip(1), k);
    }
}

// ---------------------------------------------------------------------------
// What a name is made of
// ---------------------------------------------------------------------------

/// The text of a reply behind events.
pub open spec fn reply_behind(before: Seq<char>, events: Seq<EventView>) -> Seq<char>
    decreases events.len(),
{
    if events.len() == 0 {
        before
    } else {
        reply_text(reply_behind(before, events.drop_last()), events.last())
    }
}

/// The pieces of text among events.
pub open spec fn text_pieces(events: Seq<EventView>) -> Seq<Seq<char>>
    decreases events.len(),
{
    if events.len() == 0 {
        seq![]
    } else {
        match events.last() {
            EventView::TextDelta { text, .. } => text_pieces(events.drop_last()).push(text),
            _ => text_pieces(events.drop_last()),
        }
    }
}

/// A reply is all of its pieces of text, in order.
pub proof fn a_reply_is_all_of_its_pieces(before: Seq<char>, events: Seq<EventView>)
    ensures
        reply_behind(before, events) == before + text::concat(text_pieces(events)),
    decreases events.len(),
{
    if events.len() > 0 {
        a_reply_is_all_of_its_pieces(before, events.drop_last());
        if let EventView::TextDelta { text, .. } = events.last() {
            let pieces = text_pieces(events);
            assert(pieces.drop_last() =~= text_pieces(events.drop_last()));
            assert(before + text::concat(pieces.drop_last()) + text =~= before + text::concat(
                pieces,
            ));
        }
    } else {
        assert(before + text::concat(text_pieces(events)) =~= before);
    }
}

/// Whether a character may stand at the ends of a title.
pub open spec fn ends_title(c: char) -> bool {
    !text::is_space(c) && c != '"' && c != '\'' && c != '.' && c != ',' && c != ':' && c != ';'
}

proof fn lemma_bare(s: Seq<char>)
    requires
        s.len() > 0,
        ends_title(s[0]),
        ends_title(s.last()),
    ensures
        text::trimmed(s) == s,
        without(s, '"') == s,
        without(s, '\'') == s,
        text::trim_end(s, CharClass::Just('.')) == s,
        text::trim_end(s, CharClass::TitleEnd) == s,
{
}

proof fn lemma_quoted(s: Seq<char>, c: char)
    requires
        s.len() > 0,
        ends_title(s[0]),
        ends_title(s.last()),
        c == '"' || c == '\'',
    ensures
        without(seq![c] + s + seq![c], c) == s,
{
    let k = CharClass::Just(c);
    let whole = seq![c] + s + seq![c];
    reveal_with_fuel(text::trim_start, 2);
    reveal_with_fuel(text::trim_end, 2);
    assert(whole.skip(1) =~= s + seq![c]);
    assert((s + seq![c])[0] == s[0]);
    assert((s + seq![c]).drop_last() =~= s);
}

/// A title of at most three words and fifty characters is the name of the session as it is,
/// and so it is where it stands in quotes.
pub proof fn a_short_title_is_the_name(title: Seq<char>)
    requires
        0 < title.len() <= 50,
        text::one_line(title),
        ends_title(title[0]),
        ends_title(title.last()),
        text::words(title).len() <= 3,
        text::join(text::words(title), " "@) == title,
    ensures
        session_name(title) == title,
        session_name(seq!['"'] + title + seq!['"']) == title,
        session_name(seq!['\''] + title + seq!['\'']) == title,
{
    lemma_bare(title);
    lemma_one_line(title);
    assert(cleaned_title(title) == title);
    assert(limited(title, 3) == title);
    lemma_quoted(title, '"');
    lemma_quoted(title, '\'');
    let a = seq!['"'] + title + seq!['"'];
    let b = seq!['\''] + title + seq!['\''];
    assert(text::one_line(a));
    assert(text::one_line(b));
    assert(a[0] == '"' && a.last() == '"' && b[0] == '\'' && b.last() == '\'');
    lemma_one_line(a);
    lemma_one_line(b);
    assert(text::trimmed(a) == a);
    assert(text::trimmed(b) == b);
    assert(without(b, '"') == b);
    assert(cleaned_title(a) == title);
    assert(cleaned_title(b) == title);
}

proof fn lemma_one_line(s: Seq<char>)
    requires
        s.len() > 0,
        text::one_line(s),
    ensures
        first_line(s) == s,
{
    text_laws::lines_come_apart(seq![], seq!['\n'], s);
    let none = text_laws::with_ends(seq![], seq!['\n']);
    assert(none =~= seq![]);
    assert(text::concat(none) + s =~= s);
    assert(Seq::<Seq<char>>::empty().push(s)[0] == s);
}

/// Of a longer title the first three words are kept; a title without words, or one that is
/// too long, gives the session no name of its own.
pub proof fn a_long_title_is_cut(response: Seq<char>)
    ensures
        ({
            let ws = text::words(cleaned_title(response));
            let kept = if ws.len() <= 3 {
                ws
            } else {
                seq![ws[0], ws[1], ws[2]]
            };
            let name = text::trim_end(text::join(kept, " "@), CharClass::TitleEnd);
            &&& 0 < name.len() <= 50 ==> session_name(response) == name
            &&& name.len() == 0 || name.len() > 50 ==> session_name(response) == "New Session"@
        }),
{
    let ws = text::words(cleaned_title(response));
    if ws.len() > 3 {
        assert(ws.take(3) =~= seq![ws[0], ws[1], ws[2]]);
    }
}

/// A name is made from the first two prompts, each cut to two thousand bytes.
pub proof fn a_name_is_made_from_the_first_prompts(a: Seq<char>, b: Seq<char>, more: Seq<Seq<char>>)
    ensures
        shown_prompts(seq![]) == Seq::<char>::empty(),
        text::byte_len(a) <= 2000 ==> shown_prompts(seq![a]) == a,
        text::byte_len(a) <= 2000 && text::byte_len(b) <= 2000 ==> shown_prompts(
            seq![a, b] + more,
        ) == a + "\n\n"@ + b,
        text::byte_len(a) > 2000 ==> shown_prompts(seq![a]) == text::capped(a, 2000) + "..."@,
{
    assert((seq![a, b] + more)[0] == a);
    assert((seq![a, b] + more)[1] == b);
}

/// A description that no model has written has the title first, and then the files that the
/// diff names.
pub proof fn a_plain_description_names_the_title(title: Seq<char>, diff: Seq<char>)
    ensures
        ({
            let changed = deduped(changed_paths(text::lines(diff)));
            &&& changed.len() == 0 ==> plain_description(title, diff) == "Summary:\n- "@ + title
                + "\n\nTesting:\n- Not run (not requested)"@
            &&& changed.len() > 0 ==> plain_description(title, diff) == "Summary:\n- "@ + title
                + "\n- Updates "@ + text::join(changed, ", "@)
                + "\n\nTesting:\n- Not run (not requested)"@
        }),
{
    reveal_strlit("Summary:\n");
    reveal_strlit("- ");
    reveal_strlit("Summary:\n- ");
    let changed = deduped(changed_paths(text::lines(diff)));
    let tail = "\n\nTesting:\n- Not run (not requested)"@;
    assert("Summary:\n"@ + "- "@ =~= "Summary:\n- "@);
    if changed.len() == 0 {
        assert("Summary:\n"@ + ("- "@ + title) + tail =~= "Summary:\n- "@ + title + tail);
    } else {
        let names = text::join(changed, ", "@);
        assert("Summary:\n"@ + ("- "@ + title + "\n- Updates "@ + names) + tail
            =~= "Summary:\n- "@ + title + "\n- Updates "@ + names + tail);
    }
}

/// The files that a diff names are those behind its headers, at most five, each once where
/// it is named several times in a row.
pub proof fn changed_files_are_named_by_the_headers(lines: Seq<Seq<char>>, path: Seq<char>)
    requires
        path.len() > 0,
        text::free_of(path, CharClass::Space),
        !text::starts_with(path, "b/"@),
    ensures
        ({
            let header = "diff --git "@ + ("a/"@ + path) + " "@ + ("b/"@ + path);
            &&& changed_paths(lines).len() < 5 ==> changed_paths(lines.push(header))
                == changed_paths(lines).push(path)
            &&& changed_paths(lines).len() >= 5 ==> changed_paths(lines.push(header))
                == changed_paths(lines)
        }),
        forall|l: Seq<char>|
            !text::starts_with(text::trimmed(l), "diff --git "@) ==> #[trigger] changed_paths(
                lines.push(l),
            ) == changed_paths(lines),
{
    let header = "diff --git "@ + ("a/"@ + path) + " "@ + ("b/"@ + path);
    reveal_strlit("diff --git ");
    reveal_strlit("a/");
    reveal_strlit("b/");
    reveal_strlit(" ");
    let w0 = seq!['d', 'i', 'f', 'f'];
    let w1 = seq!['-', '-', 'g', 'i', 't'];
    let w2 = seq!['a', '/'] + path;
    let w3 = seq!['b', '/'] + path;
    assert forall|i: int| 0 <= i < w2.len() implies !CharClass::Space.has(#[trigger] w2[i]) by {
        if i >= 2 {
            assert(!CharClass::Space.has(path[i - 2]));
        }
    }
    assert forall|i: int| 0 <= i < w3.len() implies !CharClass::Space.has(#[trigger] w3[i]) by {
        if i >= 2 {
            assert(!CharClass::Space.has(path[i - 2]));
        }
    }
    assert(text::free_of(w0, CharClass::Space));
    assert(text::free_of(w1, CharClass::Space));
    let r2 = w2.push(' ') + w3;
    let r1 = w1.push(' ') + r2;
    assert(header =~= w0.push(' ') + r1);
    text::words_come_apart(w0, ' ', r1);
    text::words_come_apart(w1, ' ', r2);
    text::words_come_apart(w2, ' ', w3);
    text::a_text_without_spaces_is_one_word(w0);
    text::a_text_without_spaces_is_one_word(w1);
    text::a_text_without_spaces_is_one_word(w2);
    text::a_text_without_spaces_is_one_word(w3);
    assert(text::words(header) =~= seq![w0, w1, w2, w3]);
    assert(header[0] == 'd');
    assert(header.last() == w3[w3.len() - 1]);
    text_laws::trimming_takes_the_white_space_at_the_ends(seq![], header, seq![]);
    assert(seq![] + header + seq![] =~= header);
    assert(header.subrange(0, 11) =~= "diff --git "@);
    reveal_with_fuel(text::trim_prefixes, 2);
    assert(w3.subrange(0, 2) =~= "b/"@);
    assert(w3.skip(2) =~= path);
    assert(text::trim_prefixes(w3, "b/"@) == path);
    assert(lines.push(header).drop_last() =~= lines);
    assert forall|l: Seq<char>|
        !text::starts_with(text::trimmed(l), "diff --git "@) implies #[trigger] changed_paths(
        lines.push(l),
    ) == changed_paths(lines) by {
        assert(lines.push(l).drop_last() =~= lines);
    }
}

/// What is longer than its limit is cut there, and it is said that it was.
pub proof fn long_texts_are_cut_with_a_note(s: Seq<char>, limit: nat, title: Seq<char>)
    ensures
        s.len() <= limit ==> cut(s, limit) == s,
        s.len() > limit ==> cut(s, limit) == s.take(limit as int) + "\n… [truncated]"@,
        s.len() <= 12000 ==> s.is_suffix_of(description_prompt(title, s)),
{
    let whole = description_prompt(title, s);
    if s.len() <= 12000 {
        assert(whole.skip(whole.len() - s.len()) =~= s);
    }
}

} // verus!
