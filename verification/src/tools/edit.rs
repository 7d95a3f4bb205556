use sha2::Digest;
use vstd::prelude::*;

use crate::json;
use crate::json::{Json, JsonView};
use crate::text;
use crate::text_laws;
use crate::tools::error::{ToolError, ToolErrorView};
use crate::tools::names::ToolName;
use crate::tools::result;
use crate::tools::result::{CappedOutput, ToolResult, ToolResultView};

verus! {

// ---------------------------------------------------------------------------
// Text files
// ---------------------------------------------------------------------------

/// How the lines of a text file end.
#[derive(Debug, Clone, Copy, PartialEq, Eq, Structural)]
pub enum NewlineStyle {
    Lf,
    Crlf,
}

/// The text of a file, and how its lines end.
#[derive(Debug)]
pub struct TextFile {
    pub text: String,
    pub newline: NewlineStyle,
}

/// How the lines of a text end.
pub open spec fn newline_of(s: Seq<char>) -> NewlineStyle {
    if text::contains(s, "\r\n"@) {
        NewlineStyle::Crlf
    } else {
        NewlineStyle::Lf
    }
}

/// A text whose lines end in the given way.
pub open spec fn with_newlines(s: Seq<char>, newline: NewlineStyle) -> Seq<char> {
    let unix = text::replace(s, "\r\n"@, "\n"@);
    match newline {
        NewlineStyle::Lf => unix,
        NewlineStyle::Crlf => text::replace(unix, "\n"@, "\r\n"@),
    }
}

/// The text with its lines ending as in the file that it is compared with.
pub fn normalize_edit_text(s: &str, newline: NewlineStyle) -> (r: String)
    ensures
        r@ == with_newlines(s@, newline),
{
    proof {
        reveal_strlit("\r\n");
        reveal_strlit("\n");
    }
    let unix = text::replace_text(s, "\r\n", "\n");
    match newline {
        NewlineStyle::Lf => unix,
        NewlineStyle::Crlf => text::replace_text(unix.as_str(), "\n", "\r\n"),
    }
}

/// The SHA-256 digest of bytes.
pub uninterp spec fn sha256_digest(bytes: Seq<u8>) -> Seq<u8>;

/// `Digest::digest` of `sha2::Sha256`: the digest of the bytes, of 32 bytes.
#[verifier::external_body]
fn sha256(bytes: &[u8]) -> (r: Vec<u8>)
    ensures
        r@ == sha256_digest(bytes@),
        r@.len() == 32,
{
    sha2::Sha256::digest(bytes).to_vec()
}

pub open spec fn hex_digit(d: nat) -> char {
    if d < 10 {
        (0x30 + d) as char
    } else {
        (0x57 + d) as char
    }
}

/// Bytes in lower-case hexadecimal notation, two digits each.
pub open spec fn hex(bytes: Seq<u8>) -> Seq<char>
    decreases bytes.len(),
{
    if bytes.len() == 0 {
        seq![]
    } else {
        let b = bytes.last() as nat;
        hex(bytes.drop_last()).push(hex_digit(b / 16)).push(hex_digit(b % 16))
    }
}

fn hex_char(d: u8) -> (c: char)
    requires
        d < 16,
    ensures
        c == hex_digit(d as nat),
{
    if d < 10 {
        (0x30 + d) as char
    } else {
        (0x57 + d) as char
    }
}

/// The bytes in hexadecimal notation.
pub fn hex_text(bytes: &[u8]) -> (r: String)
    ensures
        r@ == hex(bytes@),
{
    let mut r = String::new();
    let mut i: usize = 0;
    while i < bytes.len()
        invariant
            i <= bytes@.len(),
            r@ == hex(bytes@.take(i as int)),
        decreases bytes@.len() - i,
    {
        let b: u8 = bytes[i];
        assert(bytes@.take(i + 1).drop_last() =~= bytes@.take(i as int));
        r.push(hex_char(b / 16));
        r.push(hex_char(b % 16));
        i += 1;
    }
    assert(bytes@.take(i as int) =~= bytes@);
    r
}

/// The SHA-256 digest of the bytes in hexadecimal notation.
pub fn sha256_hex(bytes: &[u8]) -> (r: String)
    ensures
        r@ == hex(sha256_digest(bytes@)),
{
    let digest = sha256(bytes);
    hex_text(digest.as_slice())
}

/// Whether two notations of a hash are the same up to case and surrounding white space.
pub open spec fn same_hash(left: Seq<char>, right: Seq<char>) -> bool {
    text::ascii_lower(text::trimmed(left)) == text::ascii_lower(text::trimmed(right))
}

pub fn hashes_equal(left: &str, right: &str) -> (r: bool)
    ensures
        r == same_hash(left@, right@),
{
    let l = text::trim(left);
    let r = text::trim(right);
    text::eq_ignore_ascii_case(l.as_str(), r.as_str())
}

pub open spec fn opt_view(s: Option<&str>) -> Option<Seq<char>> {
    match s {
        Some(t) => Some(t@),
        None => None,
    }
}

/// The text that a file of the given bytes and hash holds, or why it is not edited: it
/// is binary, or its hash is not the expected one.
pub open spec fn file_text(
    path: Seq<char>,
    bytes: Seq<u8>,
    actual_hash: Seq<char>,
    expected_hash: Option<Seq<char>>,
) -> Result<Seq<char>, ToolErrorView> {
    if bytes.contains(0) {
        Err(ToolErrorView::BinaryFile { path })
    } else if expected_hash is Some && !same_hash(expected_hash->0, actual_hash) {
        Err(ToolErrorView::StaleFile { path, expected_hash: expected_hash->0, actual_hash })
    } else if !vstd::utf8::valid_utf8(bytes) {
        Err(ToolErrorView::BinaryFile { path })
    } else {
        Ok(vstd::utf8::decode_utf8(bytes))
    }
}

fn holds_zero(bytes: &[u8]) -> (r: bool)
    ensures
        r == bytes@.contains(0),
{
    let mut i: usize = 0;
    while i < bytes.len()
        invariant
            i <= bytes@.len(),
            forall|k: int| 0 <= k < i ==> bytes@[k] != 0,
        decreases bytes@.len() - i,
    {
        if bytes[i] == 0 {
            return true;
        }
        i += 1;
    }
    false
}

/// Reads the bytes of a file, whose hash is `actual_hash`, as text.
pub fn read_hashed_text(
    path: &str,
    bytes: Vec<u8>,
    actual_hash: &str,
    expected_hash: Option<&str>,
) -> (r: Result<TextFile, ToolError>)
    ensures
        match r {
            Ok(file) => file_text(path@, bytes@, actual_hash@, opt_view(expected_hash)) == Ok::<
                Seq<char>,
                ToolErrorView,
            >(file.text@) && file.newline == newline_of(file.text@),
            Err(e) => file_text(path@, bytes@, actual_hash@, opt_view(expected_hash)) == Err::<
                Seq<char>,
                ToolErrorView,
            >(e@),
        },
{
    if holds_zero(bytes.as_slice()) {
        return Err(ToolError::BinaryFile { path: path.to_string() });
    }
    if let Some(expected) = expected_hash {
        if !hashes_equal(expected, actual_hash) {
            return Err(
                ToolError::StaleFile {
                    path: path.to_string(),
                    expected_hash: expected.to_string(),
                    actual_hash: actual_hash.to_string(),
                },
            );
        }
    }
    match text::text_of_utf8(bytes) {
        None => Err(ToolError::BinaryFile { path: path.to_string() }),
        Some(t) => {
            let newline = if text::holds_text(t.as_str(), "\r\n") {
                NewlineStyle::Crlf
            } else {
                NewlineStyle::Lf
            };
            Ok(TextFile { text: t, newline })
        },
    }
}

/// Reads the bytes of a file as text.
pub fn read_text_file(path: &str, bytes: Vec<u8>, expected_hash: Option<&str>) -> (r: Result<
    TextFile,
    ToolError,
>)
    ensures
        match r {
            Ok(file) => file_text(
                path@,
                bytes@,
                hex(sha256_digest(bytes@)),
                opt_view(expected_hash),
            ) == Ok::<Seq<char>, ToolErrorView>(file.text@) && file.newline == newline_of(
                file.text@,
            ),
            Err(e) => file_text(
                path@,
                bytes@,
                hex(sha256_digest(bytes@)),
                opt_view(expected_hash),
            ) == Err::<Seq<char>, ToolErrorView>(e@),
        },
{
    let actual_hash = sha256_hex(bytes.as_slice());
    read_hashed_text(path, bytes, actual_hash.as_str(), expected_hash)
}

// ---------------------------------------------------------------------------
// Edits
// ---------------------------------------------------------------------------

/// The replacement of one piece of text by another.
#[derive(Debug)]
pub struct TextEdit {
    pub old: String,
    pub new: String,
}

/// The content of a `TextEdit`.
pub struct TextEditView {
    pub old: Seq<char>,
    pub new: Seq<char>,
}

impl View for TextEdit {
    type V = TextEditView;

    open spec fn view(&self) -> TextEditView {
        TextEditView { old: self.old@, new: self.new@ }
    }
}

impl TextEdit {
    pub fn new(old: &str, new: &str) -> (r: TextEdit)
        ensures
            r@ == (TextEditView { old: old@, new: new@ }),
    {
        TextEdit { old: old.to_string(), new: new.to_string() }
    }
}

/// One edit of a text whose lines end in the given way. The old text must stand in it
/// exactly once. Where it does not stand there at all, but the new text does, once, the
/// edit has been made already and changes nothing.
pub open spec fn edited(
    path: Seq<char>,
    content: Seq<char>,
    newline: NewlineStyle,
    edit: TextEditView,
) -> Result<Seq<char>, ToolErrorView> {
    let old = with_newlines(edit.old, newline);
    let new = with_newlines(edit.new, newline);
    let n = text::count(content, old);
    if old.len() == 0 {
        Err(ToolErrorView::EmptyEdit)
    } else if n == 0 && new.len() > 0 && text::count(content, new) == 1 {
        Ok(content)
    } else if n == 0 {
        Err(ToolErrorView::EditTargetNotFound { path, old: edit.old })
    } else if n > 1 {
        Err(ToolErrorView::EditTargetNotUnique { path, old: edit.old, count: n })
    } else {
        Ok(text::replace_first(content, old, new))
    }
}

/// The edits one after the other; the first one that fails ends it.
pub open spec fn all_edited(
    path: Seq<char>,
    content: Seq<char>,
    newline: NewlineStyle,
    edits: Seq<TextEditView>,
) -> Result<Seq<char>, ToolErrorView>
    decreases edits.len(),
{
    if edits.len() == 0 {
        Ok(content)
    } else {
        match all_edited(path, content, newline, edits.drop_last()) {
            Ok(c) => edited(path, c, newline, edits.last()),
            Err(e) => Err(e),
        }
    }
}

pub open spec fn edit_views(edits: Seq<TextEdit>) -> Seq<TextEditView> {
    edits.map_values(|e: TextEdit| e@)
}

/// Makes one edit.
pub fn apply_edit(path: &str, content: String, newline: NewlineStyle, edit: &TextEdit) -> (r: Result<
    String,
    ToolError,
>)
    ensures
        match r {
            Ok(c) => edited(path@, content@, newline, edit@) == Ok::<Seq<char>, ToolErrorView>(c@),
            Err(e) => edited(path@, content@, newline, edit@) == Err::<Seq<char>, ToolErrorView>(
                e@,
            ),
        },
{
    let old = normalize_edit_text(edit.old.as_str(), newline);
    let new = normalize_edit_text(edit.new.as_str(), newline);
    if text::is_blank_len(&old) {
        return Err(ToolError::EmptyEdit);
    }
    let count: usize = text::count_text(content.as_str(), old.as_str());
    if count == 0 {
        if !text::is_blank_len(&new) {
            let landed: usize = text::count_text(content.as_str(), new.as_str());
            if landed == 1 {
                return Ok(content);
            }
        }
        return Err(
            ToolError::EditTargetNotFound { path: path.to_string(), old: edit.old.clone() },
        );
    }
    if count > 1 {
        return Err(
            ToolError::EditTargetNotUnique {
                path: path.to_string(),
                old: edit.old.clone(),
                count,
            },
        );
    }
    Ok(text::replace_first_text(content.as_str(), old.as_str(), new.as_str()))
}

/// Makes the edits one after the other.
pub fn apply_edits(path: &str, content: String, newline: NewlineStyle, edits: &[TextEdit]) -> (r:
    Result<String, ToolError>)
    ensures
        match r {
            Ok(c) => all_edited(path@, content@, newline, edit_views(edits@)) == Ok::<
                Seq<char>,
                ToolErrorView,
            >(c@),
            Err(e) => all_edited(path@, content@, newline, edit_views(edits@)) == Err::<
                Seq<char>,
                ToolErrorView,
            >(e@),
        },
{
    let ghost start = content@;
    let ghost all = edit_views(edits@);
    let mut current = content;
    let mut i: usize = 0;
    while i < edits.len()
        invariant
            i <= edits@.len(),
            all == edit_views(edits@),
            start == content@,
            all_edited(path@, start, newline, all.take(i as int)) == Ok::<
                Seq<char>,
                ToolErrorView,
            >(current@),
        decreases edits@.len() - i,
    {
        assert(all.take(i + 1).drop_last() =~= all.take(i as int));
        assert(all.take(i + 1).last() == edits@[i as int]@);
        match apply_edit(path, current, newline, &edits[i]) {
            Ok(c) => {
                current = c;
            },
            Err(e) => {
                proof {
                    lemma_failed_edit(path@, start, newline, all, i + 1, e@);
                }
                return Err(e);
            },
        }
        i += 1;
    }
    assert(all.take(i as int) =~= all);
    Ok(current)
}

/// An edit that fails makes the whole list fail.
proof fn lemma_failed_edit(
    path: Seq<char>,
    content: Seq<char>,
    newline: NewlineStyle,
    edits: Seq<TextEditView>,
    n: int,
    e: ToolErrorView,
)
    requires
        0 <= n <= edits.len(),
        all_edited(path, content, newline, edits.take(n)) == Err::<Seq<char>, ToolErrorView>(e),
    ensures
        all_edited(path, content, newline, edits) == Err::<Seq<char>, ToolErrorView>(e),
    decreases edits.len() - n,
{
    if n == edits.len() {
        assert(edits.take(n) =~= edits);
    } else {
        assert(edits.take(n + 1).drop_last() =~= edits.take(n));
        lemma_failed_edit(path, content, newline, edits, n + 1, e);
    }
}

/// What `multi_edit` does to a file of the given bytes and hash: the text that it writes
/// back.
pub open spec fn file_edited(
    path: Seq<char>,
    bytes: Seq<u8>,
    actual_hash: Seq<char>,
    edits: Seq<TextEditView>,
    expected_hash: Option<Seq<char>>,
) -> Result<Seq<char>, ToolErrorView> {
    if edits.len() == 0 {
        Err(ToolErrorView::EmptyEdit)
    } else {
        match file_text(path, bytes, actual_hash, expected_hash) {
            Err(e) => Err(e),
            Ok(content) => all_edited(path, content, newline_of(content), edits),
        }
    }
}

/// A list of edits must hold one.
pub fn require_edits(edits: &[TextEdit]) -> (r: Result<(), ToolError>)
    ensures
        match r {
            Ok(_) => edits@.len() > 0,
            Err(e) => edits@.len() == 0 && e@ == ToolErrorView::EmptyEdit,
        },
{
    if edits.len() == 0 {
        Err(ToolError::EmptyEdit)
    } else {
        Ok(())
    }
}

/// The new text of a file of the given bytes and hash.
pub fn edit_hashed_file(
    path: &str,
    bytes: Vec<u8>,
    actual_hash: &str,
    edits: &[TextEdit],
    expected_hash: Option<&str>,
) -> (r: Result<String, ToolError>)
    ensures
        match r {
            Ok(c) => file_edited(
                path@,
                bytes@,
                actual_hash@,
                edit_views(edits@),
                opt_view(expected_hash),
            ) == Ok::<Seq<char>, ToolErrorView>(c@),
            Err(e) => file_edited(
                path@,
                bytes@,
                actual_hash@,
                edit_views(edits@),
                opt_view(expected_hash),
            ) == Err::<Seq<char>, ToolErrorView>(e@),
        },
{
    match require_edits(edits) {
        Err(e) => {
            return Err(e);
        },
        Ok(_) => {},
    }
    match read_hashed_text(path, bytes, actual_hash, expected_hash) {
        Err(e) => Err(e),
        Ok(file) => apply_edits(path, file.text, file.newline, edits),
    }
}

/// What a successful edit reports.
pub open spec fn edit_report(
    name: ToolName,
    path: Seq<char>,
    relative: Seq<char>,
    edits: nat,
) -> ToolResultView {
    result::success(
        name,
        "applied "@ + text::decimal(edits) + " edit(s) to "@ + path,
        false,
        json::empty_object()
            .with("path"@, JsonView::Text(relative))
            .with("edits"@, JsonView::Unsigned(edits)),
    )
}

/// The new text of a file, and the report of the call.
#[derive(Debug)]
pub struct EditOutcome {
    pub content: String,
    pub result: ToolResult,
}

fn report(name: ToolName, path: &str, relative: &str, edits: usize) -> (r: ToolResult)
    ensures
        r@ == edit_report(name, path@, relative@, edits as nat),
{
    let n: u64 = edits as u64;
    let output = text::cat4("applied ", text::decimal_text(n).as_str(), " edit(s) to ", path);
    ToolResult::success(name, CappedOutput::complete(output)).with_metadata(
        Json::object().with("path", Json::text(relative)).with("edits", Json::Unsigned(n)),
    )
}

/// Edits the file at the resolved `path`, which holds `bytes` and is shown as
/// `relative`: the text to write to it, and what is reported once that is done.
pub fn multi_edit(
    path: &str,
    relative: &str,
    bytes: Vec<u8>,
    edits: &[TextEdit],
    expected_hash: Option<&str>,
) -> (r: Result<EditOutcome, ToolError>)
    ensures
        match r {
            Ok(o) => file_edited(
                path@,
                bytes@,
                hex(sha256_digest(bytes@)),
                edit_views(edits@),
                opt_view(expected_hash),
            ) == Ok::<Seq<char>, ToolErrorView>(o.content@) && o.result@ == edit_report(
                ToolName::MultiEdit,
                path@,
                relative@,
                edits@.len(),
            ),
            Err(e) => file_edited(
                path@,
                bytes@,
                hex(sha256_digest(bytes@)),
                edit_views(edits@),
                opt_view(expected_hash),
            ) == Err::<Seq<char>, ToolErrorView>(e@),
        },
{
    let actual_hash = sha256_hex(bytes.as_slice());
    match edit_hashed_file(path, bytes, actual_hash.as_str(), edits, expected_hash) {
        Err(e) => Err(e),
        Ok(content) => {
            let result = report(ToolName::MultiEdit, path, relative, edits.len());
            Ok(EditOutcome { content, result })
        },
    }
}

/// Makes one edit in a file, as `multi_edit` does.
pub fn edit_file(
    path: &str,
    relative: &str,
    bytes: Vec<u8>,
    old: &str,
    new: &str,
    expected_hash: Option<&str>,
) -> (r: Result<EditOutcome, ToolError>)
    ensures
        match r {
            Ok(o) => file_edited(
                path@,
                bytes@,
                hex(sha256_digest(bytes@)),
                seq![TextEditView { old: old@, new: new@ }],
                opt_view(expected_hash),
            ) == Ok::<Seq<char>, ToolErrorView>(o.content@) && o.result@ == edit_report(
                ToolName::EditFile,
                path@,
                relative@,
                1,
            ),
            Err(e) => file_edited(
                path@,
                bytes@,
                hex(sha256_digest(bytes@)),
                seq![TextEditView { old: old@, new: new@ }],
                opt_view(expected_hash),
            ) == Err::<Seq<char>, ToolErrorView>(e@),
        },
{
    let mut edits: Vec<TextEdit> = Vec::new();
    edits.push(TextEdit::new(old, new));
    assert(edit_views(edits@) =~= seq![TextEditView { old: old@, new: new@ }]);
    match multi_edit(path, relative, bytes, edits.as_slice(), expected_hash) {
        Err(e) => Err(e),
        Ok(outcome) => {
            let result = report(ToolName::EditFile, path, relative, 1);
            Ok(EditOutcome { content: outcome.content, result })
        },
    }
}

/// An edit that has landed, so that the old text is gone and the new text stands there
/// once, can be made again: the text stays as it is.
pub proof fn a_landed_edit_can_be_retried(
    path: Seq<char>,
    content: Seq<char>,
    newline: NewlineStyle,
    edit: TextEditView,
    landed: Seq<char>,
)
    requires
        edited(path, content, newline, edit) == Ok::<Seq<char>, ToolErrorView>(landed),
        text::count(landed, with_newlines(edit.old, newline)) == 0,
        with_newlines(edit.new, newline).len() > 0,
        text::count(landed, with_newlines(edit.new, newline)) == 1,
    ensures
        edited(path, landed, newline, edit) == Ok::<Seq<char>, ToolErrorView>(landed),
{
}

/// An edit of a text that holds the old text once puts the new text in its place and
/// leaves what stands before and behind it.
pub proof fn an_edit_replaces_the_single_match(
    path: Seq<char>,
    content: Seq<char>,
    newline: NewlineStyle,
    edit: TextEditView,
)
    requires
        with_newlines(edit.old, newline).len() > 0,
        text::count(content, with_newlines(edit.old, newline)) == 1,
    ensures
        ({
            let old = with_newlines(edit.old, newline);
            let new = with_newlines(edit.new, newline);
            exists|i: int| #[trigger]
                text::occurs_at(content, old, i) && edited(path, content, newline, edit) == Ok::<
                    Seq<char>,
                    ToolErrorView,
                >(content.take(i) + new + content.skip(i + old.len()))
        }),
{
    let old = with_newlines(edit.old, newline);
    text::lemma_find_from(content, old, 0);
    let i = text::find(content, old)->0;
    assert(text::occurs_at(content, old, i));
}

// ---------------------------------------------------------------------------
// When an edit takes effect
// ---------------------------------------------------------------------------

/// Where the old text stands at one place of a file only, the edit puts the new text there
/// and leaves what stands before and behind it.
pub proof fn an_edit_takes_effect_at_its_one_place(
    path: Seq<char>,
    before: Seq<char>,
    behind: Seq<char>,
    newline: NewlineStyle,
    edit: TextEditView,
)
    requires
        with_newlines(edit.old, newline).len() > 0,
        forall|i: int|
            #[trigger] text::occurs_at(
                before + with_newlines(edit.old, newline) + behind,
                with_newlines(edit.old, newline),
                i,
            ) ==> i == before.len(),
    ensures
        edited(path, before + with_newlines(edit.old, newline) + behind, newline, edit) == Ok::<
            Seq<char>,
            ToolErrorView,
        >(before + with_newlines(edit.new, newline) + behind),
{
    let old = with_newlines(edit.old, newline);
    text_laws::a_single_match_is_counted_once(before, old, behind);
    text_laws::the_first_match_is_replaced(
        before,
        old,
        behind,
        with_newlines(edit.new, newline),
    );
}

/// An edit without an old text, one whose old text stands at several places, and one whose
/// old text stands nowhere while the new text has not landed either, are refused.
pub proof fn an_edit_without_its_one_place_is_refused(
    path: Seq<char>,
    content: Seq<char>,
    a: Seq<char>,
    b: Seq<char>,
    c: Seq<char>,
    newline: NewlineStyle,
    edit: TextEditView,
)
    ensures
        with_newlines(edit.old, newline).len() == 0 ==> edited(path, content, newline, edit)
            == Err::<Seq<char>, ToolErrorView>(ToolErrorView::EmptyEdit),
        with_newlines(edit.old, newline).len() > 0 && content == a + with_newlines(
            edit.old,
            newline,
        ) + b + with_newlines(edit.old, newline) + c ==> (edited(path, content, newline, edit)
            matches Err(ToolErrorView::EditTargetNotUnique { path: p, old, count }) && p == path
            && old == edit.old && count > 1),
        with_newlines(edit.old, newline).len() > 0 && !text::contains(
            content,
            with_newlines(edit.old, newline),
        ) && !text::contains(content, with_newlines(edit.new, newline)) ==> edited(
            path,
            content,
            newline,
            edit,
        ) == Err::<Seq<char>, ToolErrorView>(
            ToolErrorView::EditTargetNotFound { path, old: edit.old },
        ),
{
    let old = with_newlines(edit.old, newline);
    let new = with_newlines(edit.new, newline);
    if old.len() > 0 && content == a + old + b + old + c {
        text_laws::two_matches_are_both_counted(a, old, b, c);
    }
    if !text::contains(content, old) {
        assert(forall|i: int| !#[trigger] text::occurs_at(content, old, i));
        text_laws::without_a_match_nothing_is_replaced(content, old, seq![]);
    }
    if !text::contains(content, new) {
        assert(forall|i: int| !#[trigger] text::occurs_at(content, new, i));
        text_laws::without_a_match_nothing_is_replaced(content, new, seq![]);
    }
}

/// Edits are made one after the other, each in what the ones before it have left; after
/// one that fails none is made.
pub proof fn edits_are_made_in_turn(
    path: Seq<char>,
    content: Seq<char>,
    newline: NewlineStyle,
    first: Seq<TextEditView>,
    more: Seq<TextEditView>,
)
    ensures
        match all_edited(path, content, newline, first) {
            Ok(c) => all_edited(path, content, newline, first + more) == all_edited(
                path,
                c,
                newline,
                more,
            ),
            Err(e) => all_edited(path, content, newline, first + more) == Err::<
                Seq<char>,
                ToolErrorView,
            >(e),
        },
        all_edited(path, content, newline, seq![]) == Ok::<Seq<char>, ToolErrorView>(content),
        more.len() == 1 ==> all_edited(path, content, newline, more) == edited(
            path,
            content,
            newline,
            more[0],
        ),
    decreases more.len(),
{
    if more.len() == 0 {
        assert(first + more =~= first);
    } else {
        edits_are_made_in_turn(path, content, newline, first, more.drop_last());
        assert((first + more).drop_last() =~= first + more.drop_last());
        assert((first + more).last() == more.last());
        if more.len() == 1 {
            assert(more.drop_last() =~= seq![]);
        }
    }
}

/// A file is edited only if it is text, and only if it is the one that was expected, where
/// that is said.
pub proof fn only_the_expected_text_is_edited(
    path: Seq<char>,
    bytes: Seq<u8>,
    actual: Seq<char>,
    edits: Seq<TextEditView>,
    expected: Option<Seq<char>>,
)
    requires
        edits.len() > 0,
    ensures
        bytes.contains(0) ==> file_edited(path, bytes, actual, edits, expected) == Err::<
            Seq<char>,
            ToolErrorView,
        >(ToolErrorView::BinaryFile { path }),
        !bytes.contains(0) && (expected matches Some(e) && text::ascii_lower(text::trimmed(e))
            != text::ascii_lower(text::trimmed(actual))) ==> file_edited(
            path,
            bytes,
            actual,
            edits,
            expected,
        ) == Err::<Seq<char>, ToolErrorView>(
            ToolErrorView::StaleFile { path, expected_hash: expected->0, actual_hash: actual },
        ),
        !bytes.contains(0) && (expected matches Some(e) ==> text::ascii_lower(text::trimmed(e))
            == text::ascii_lower(text::trimmed(actual))) && vstd::utf8::valid_utf8(bytes)
            ==> file_edited(path, bytes, actual, edits, expected) == all_edited(
            path,
            vstd::utf8::decode_utf8(bytes),
            if text::contains(vstd::utf8::decode_utf8(bytes), "\r\n"@) {
                NewlineStyle::Crlf
            } else {
                NewlineStyle::Lf
            },
            edits,
        ),
        file_edited(path, bytes, actual, seq![], expected) == Err::<Seq<char>, ToolErrorView>(
            ToolErrorView::EmptyEdit,
        ),
{
}

/// A hash is written with two hexadecimal digits for each byte, the high one first.
pub proof fn bytes_are_written_in_hexadecimal(bytes: Seq<u8>)
    ensures
        hex(bytes).len() == 2 * bytes.len(),
        forall|i: int|
            0 <= i < bytes.len() ==> hex(bytes)[2 * i] == "0123456789abcdef"@[#[trigger] bytes[i]
                as int / 16] && hex(bytes)[2 * i + 1] == "0123456789abcdef"@[bytes[i] as int % 16],
    decreases bytes.len(),
{
    reveal_strlit("0123456789abcdef");
    if bytes.len() > 0 {
        let front = bytes.drop_last();
        bytes_are_written_in_hexadecimal(front);
        let before = hex(front);
        let b = bytes.last() as nat;
        assert(hex(bytes) == before.push(hex_digit(b / 16)).push(hex_digit(b % 16)));
        assert(hex_digit(b / 16) == "0123456789abcdef"@[b as int / 16]);
        assert(hex_digit(b % 16) == "0123456789abcdef"@[b as int % 16]);
        assert forall|i: int| 0 <= i < bytes.len() implies hex(bytes)[2 * i]
            == "0123456789abcdef"@[#[trigger] bytes[i] as int / 16] && hex(bytes)[2 * i + 1]
            == "0123456789abcdef"@[bytes[i] as int % 16] by {
            if i < front.len() {
                assert(front[i] == bytes[i]);
            }
        }
    }
}

/// What is told of an edit names the file and counts the edits.
pub proof fn an_edit_is_told_with_its_count(
    name: ToolName,
    path: Seq<char>,
    relative: Seq<char>,
    edits: nat,
)
    ensures
        ({
            let r = edit_report(name, path, relative, edits);
            &&& r.output == "applied "@ + text::decimal(edits) + " edit(s) to "@ + path
            &&& !r.truncated
            &&& json::text_field(r.metadata, "path"@) == Some(relative)
            &&& json::unsigned_field(r.metadata, "edits"@) == Some(edits)
        }),
{
    reveal_strlit("path");
    reveal_strlit("edits");
    assert("path"@.len() != "edits"@.len());
}

} // verus!
