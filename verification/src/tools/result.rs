use vstd::prelude::*;

use crate::json::{Json, JsonView};
use crate::text;
use crate::tools::names;
use crate::tools::names::ToolName;

verus! {

/// Output that may have been cut short.
#[derive(Debug)]
pub struct CappedOutput {
    pub text: String,
    pub truncated: bool,
}

impl CappedOutput {
    /// Output that was not cut.
    pub fn complete(text: String) -> (r: CappedOutput)
        ensures
            r.text@ == text@,
            !r.truncated,
    {
        CappedOutput { text, truncated: false }
    }
}

/// Cuts the text at the last character boundary within `limit` bytes, where it takes more.
pub fn cap_output(text: String, limit: usize) -> (r: CappedOutput)
    ensures
        r.text@ == text::capped(text@, limit as nat),
        r.truncated == (text::byte_len(text@) > limit),
{
    let (kept, truncated) = text::cap_bytes(text.as_str(), limit);
    CappedOutput { text: kept, truncated }
}

/// Capped output is a prefix of the text that keeps to the limit, and any longer prefix
/// exceeds it.
pub proof fn capping_keeps_the_longest_prefix(text: Seq<char>, limit: nat)
    ensures
        text::capped(text, limit).is_prefix_of(text),
        text::byte_len(text::capped(text, limit)) <= limit,
        forall|n: int|
            text::capped(text, limit).len() < n <= text.len() ==> text::byte_len(
                #[trigger] text.take(n),
            ) > limit,
        text::byte_len(text) <= limit ==> text::capped(text, limit) == text,
    decreases text.len(),
{
    if text.len() == 0 {
        assert(text::capped(text, limit) =~= seq![]);
    } else if text::byte_len(text) <= limit {
        assert(text::capped(text, limit) =~= text);
    } else {
        let shorter = text.drop_last();
        capping_keeps_the_longest_prefix(shorter, limit);
        text::lemma_cap_len_bound(shorter, limit);
        assert(text::capped(text, limit) =~= text::capped(shorter, limit));
        assert forall|n: int|
            text::capped(text, limit).len() < n <= text.len() implies text::byte_len(
            #[trigger] text.take(n),
        ) > limit by {
            if n == text.len() {
                assert(text.take(n) =~= text);
            } else {
                assert(text.take(n) =~= shorter.take(n));
            }
        }
    }
}

/// What a tool call gave back.
#[derive(Debug)]
pub struct ToolResult {
    pub name: ToolName,
    pub title: String,
    pub metadata: Json,
    pub output: String,
    pub exit_code: Option<i32>,
    pub truncated: bool,
}

/// The content of a `ToolResult`.
pub struct ToolResultView {
    pub name: ToolName,
    pub title: Seq<char>,
    pub metadata: JsonView,
    pub output: Seq<char>,
    pub exit_code: Option<i32>,
    pub truncated: bool,
}

impl View for ToolResult {
    type V = ToolResultView;

    open spec fn view(&self) -> ToolResultView {
        ToolResultView {
            name: self.name,
            title: self.title@,
            metadata: self.metadata@,
            output: self.output@,
            exit_code: self.exit_code,
            truncated: self.truncated,
        }
    }
}

/// The result of a call that succeeded with the given output and metadata.
pub open spec fn success(
    name: ToolName,
    output: Seq<char>,
    truncated: bool,
    metadata: JsonView,
) -> ToolResultView {
    ToolResultView {
        name,
        title: names::tool_title(name),
        metadata,
        output,
        exit_code: Some(0),
        truncated,
    }
}

/// A result whose output is cut to `limit` bytes.
pub open spec fn output_capped(r: ToolResultView, limit: nat) -> ToolResultView {
    ToolResultView {
        output: text::capped(r.output, limit),
        truncated: text::byte_len(r.output) > limit,
        ..r
    }
}

impl ToolResult {
    /// The result of a call that succeeded.
    pub fn success(name: ToolName, output: CappedOutput) -> (r: ToolResult)
        ensures
            r@ == success(name, output.text@, output.truncated, JsonView::Null),
    {
        ToolResult {
            name,
            title: name.title().to_string(),
            metadata: Json::Null,
            output: output.text,
            exit_code: Some(0),
            truncated: output.truncated,
        }
    }

    /// The result with its output cut to `limit` bytes.
    pub fn with_output_cap(self, limit: usize) -> (r: ToolResult)
        ensures
            r@ == output_capped(self@, limit as nat),
    {
        let capped = cap_output(self.output, limit);
        ToolResult {
            name: self.name,
            title: self.title,
            metadata: self.metadata,
            output: capped.text,
            exit_code: self.exit_code,
            truncated: capped.truncated,
        }
    }

    /// The result with other metadata.
    pub fn with_metadata(self, metadata: Json) -> (r: ToolResult)
        ensures
            r@ == (ToolResultView { metadata: metadata@, ..self@ }),
    {
        ToolResult {
            name: self.name,
            title: self.title,
            metadata,
            output: self.output,
            exit_code: self.exit_code,
            truncated: self.truncated,
        }
    }
}

} // verus!
