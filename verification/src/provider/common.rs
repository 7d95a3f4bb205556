//! What providers and the harness hand each other.
use vstd::prelude::*;

use crate::runtime::events;
use crate::runtime::events::{AnswerView, QuestionAnswer};
use crate::runtime::types::ToolCallId;
use crate::text;

verus! {

/// What a tool call that a provider asked for has given back.
#[derive(Debug)]
pub struct ProviderToolResponse {
    pub tool_call_id: ToolCallId,
    pub output: String,
    pub is_error: bool,
}

/// The content of a `ProviderToolResponse`.
pub struct ToolResponseView {
    pub tool_call_id: ToolCallId,
    pub output: Seq<char>,
    pub is_error: bool,
}

impl View for ProviderToolResponse {
    type V = ToolResponseView;

    open spec fn view(&self) -> ToolResponseView {
        ToolResponseView {
            tool_call_id: self.tool_call_id,
            output: self.output@,
            is_error: self.is_error,
        }
    }
}

// ---------------------------------------------------------------------------
// Questions
// ---------------------------------------------------------------------------

/// The answers to questions, and how they are told to the model.
#[derive(Debug)]
pub struct ProviderQuestionResult {
    pub answers: Vec<QuestionAnswer>,
    pub output: String,
}

/// What is heard while answers are awaited.
#[derive(Debug)]
pub enum QuestionReply {
    /// Answers to the questions of a tool call.
    Answered { tool_call_id: ToolCallId, answers: Vec<QuestionAnswer> },
    /// Nobody will answer any more.
    Closed,
}

/// The lines that tell the model a question and its answer; they are counted from one.
pub open spec fn answer_text(index: int, a: AnswerView) -> Seq<char> {
    let n = text::decimal((index + 1) as nat);
    "Q"@ + n + ": "@ + a.question + "\nA"@ + n + ": "@ + a.answer
}

/// How answers are told to the model.
pub open spec fn answers_text(answers: Seq<AnswerView>) -> Seq<char> {
    text::join(Seq::new(answers.len(), |i: int| answer_text(i, answers[i])), "\n\n"@)
}

pub open spec fn no_answers_text() -> Seq<char> {
    "No question answers received; ask the user again if this decision is still required."@
}

/// How the answers are told to the model.
pub fn format_answers(answers: &Vec<QuestionAnswer>) -> (r: String)
    ensures
        r@ == answers_text(events::answer_views(answers@)),
{
    let ghost all = events::answer_views(answers@);
    let mut lines: Vec<String> = Vec::new();
    let mut i: usize = 0;
    while i < answers.len()
        invariant
            i <= answers@.len(),
            lines@.len() == i,
            all == events::answer_views(answers@),
            forall|k: int| 0 <= k < i ==> (#[trigger] lines@[k])@ == answer_text(k, all[k]),
        decreases answers@.len() - i,
    {
        let n = text::decimal_text(i as u64 + 1);
        let mut line = text::cat5("Q", n.as_str(), ": ", answers[i].question.as_str(), "\nA");
        line.push_str(n.as_str());
        line.push_str(": ");
        line.push_str(answers[i].answer.as_str());
        assert(line@ =~= answer_text(i as int, all[i as int]));
        lines.push(line);
        i += 1;
    }
    assert(text::views(lines@) =~= Seq::new(all.len(), |i: int| answer_text(i, all[i])));
    text::join_strings(lines.as_slice(), "\n\n")
}

/// What a reply means to those who asked for the tool call `asked`: the answers, that
/// there will be none, or nothing where it is about another call.
pub fn ask_questions(asked: ToolCallId, reply: QuestionReply) -> (r: Option<ProviderQuestionResult>)
    ensures
        match reply {
            QuestionReply::Answered { tool_call_id, answers } => match r {
                Some(result) => tool_call_id == asked && events::answer_views(result.answers@)
                    == events::answer_views(answers@) && result.output@ == answers_text(
                    events::answer_views(answers@),
                ),
                None => tool_call_id != asked,
            },
            QuestionReply::Closed => r matches Some(result) && result.answers@.len() == 0
                && result.output@ == no_answers_text(),
        },
{
    match reply {
        QuestionReply::Answered { tool_call_id, answers } => {
            if tool_call_id != asked {
                return None;
            }
            let output = format_answers(&answers);
            Some(ProviderQuestionResult { answers, output })
        },
        QuestionReply::Closed => Some(
            ProviderQuestionResult {
                answers: Vec::new(),
                output:
                    "No question answers received; ask the user again if this decision is still required.".to_string(),
            },
        ),
    }
}

/// The answers to questions are told in order, each under its question, with the number of
/// both.
pub proof fn answers_are_told_under_their_questions(answers: Seq<AnswerView>, a: AnswerView)
    ensures
        ({
            let n = text::decimal(answers.len() + 1);
            let own = "Q"@ + n + ": "@ + a.question + "\nA"@ + n + ": "@ + a.answer;
            &&& answers.len() == 0 ==> answers_text(answers.push(a)) == own
            &&& answers.len() > 0 ==> answers_text(answers.push(a)) == answers_text(answers)
                + "\n\n"@ + own
        }),
{
    let all = answers.push(a);
    let texts = Seq::new(all.len(), |i: int| answer_text(i, all[i]));
    let before = Seq::new(answers.len(), |i: int| answer_text(i, answers[i]));
    assert(texts.drop_last() =~= before);
    assert(texts.last() == answer_text(answers.len() as int, a));
}

} // verus!
