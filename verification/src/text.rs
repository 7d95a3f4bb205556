use vstd::prelude::*;
use vstd::slice::slice_subrange;

verus! {

// ---------------------------------------------------------------------------
// Building strings
// ---------------------------------------------------------------------------

/// `String::push` appends one character to the string.
pub assume_specification[ String::push ](s: &mut String, c: char)
    ensures
        final(s)@ == old(s)@.push(c),
;

/// `String::push_str` appends a string slice to the string.
pub assume_specification[ String::push_str ](s: &mut String, t: &str)
    ensures
        final(s)@ == old(s)@ + t@,
;

/// The views of a sequence of strings.
pub open spec fn views(parts: Seq<String>) -> Seq<Seq<char>> {
    parts.map_values(|p: String| p@)
}

/// The view of a string that may be missing.
pub open spec fn opt(s: Option<String>) -> Option<Seq<char>> {
    match s {
        Some(t) => Some(t@),
        None => None,
    }
}

/// The characters of a string, in order.
pub fn chars_of(s: &str) -> (cs: Vec<char>)
    ensures
        cs@ == s@,
{
    let mut cs: Vec<char> = Vec::new();
    for c in it: s.chars()
        invariant
            cs@ == s@.take(it.index() as int),
            it.seq() == s@,
    {
        cs.push(c);
        assert(s@.take(it.index() as int + 1) =~= s@.take(it.index() as int).push(c));
    }
    assert(s@.take(s@.len() as int) =~= s@);
    cs
}

/// The string made of the given characters.
pub fn string_of(cs: &[char]) -> (s: String)
    ensures
        s@ == cs@,
{
    let mut s = String::new();
    let mut i: usize = 0;
    while i < cs.len()
        invariant
            i <= cs@.len(),
            s@ == cs@.take(i as int),
        decreases cs@.len() - i,
    {
        s.push(cs[i]);
        i += 1;
        assert(cs@.take(i as int) =~= cs@.take(i - 1).push(cs@[i - 1]));
    }
    assert(cs@.take(i as int) =~= cs@);
    s
}

/// `str`'s `==` compares two string slices character by character.
pub assume_specification[ <str as PartialEq<str>>::eq ](a: &str, b: &str) -> (r: bool)
    ensures
        r == (a@ == b@),
;

/// Whether two texts are the same.
pub fn same(a: &str, b: &str) -> (r: bool)
    ensures
        r == (a@ == b@),
{
    *a == *b
}

/// `a` and `b` one after the other.
pub fn cat2(a: &str, b: &str) -> (r: String)
    ensures
        r@ == a@ + b@,
{
    let mut r = a.to_string();
    r.push_str(b);
    r
}

/// `a`, `b` and `c` one after the other.
pub fn cat3(a: &str, b: &str, c: &str) -> (r: String)
    ensures
        r@ == a@ + b@ + c@,
{
    let mut r = cat2(a, b);
    r.push_str(c);
    r
}

/// `a`, `b`, `c` and `d` one after the other.
pub fn cat4(a: &str, b: &str, c: &str, d: &str) -> (r: String)
    ensures
        r@ == a@ + b@ + c@ + d@,
{
    let mut r = cat3(a, b, c);
    r.push_str(d);
    r
}

/// `a`, `b`, `c`, `d` and `e` one after the other.
pub fn cat5(a: &str, b: &str, c: &str, d: &str, e: &str) -> (r: String)
    ensures
        r@ == a@ + b@ + c@ + d@ + e@,
{
    let mut r = cat4(a, b, c, d);
    r.push_str(e);
    r
}

/// The list of one text.
pub fn list1(a: &str) -> (r: Vec<String>)
    ensures
        views(r@) == seq![a@],
{
    let mut r: Vec<String> = Vec::new();
    r.push(a.to_string());
    assert(views(r@) =~= seq![a@]);
    r
}

/// The list of two texts.
pub fn list2(a: &str, b: &str) -> (r: Vec<String>)
    ensures
        views(r@) == seq![a@, b@],
{
    let mut r = list1(a);
    let ghost before = views(r@);
    r.push(b.to_string());
    assert(views(r@) =~= before.push(b@));
    assert(views(r@) =~= seq![a@, b@]);
    r
}

/// The list of three texts.
pub fn list3(a: &str, b: &str, c: &str) -> (r: Vec<String>)
    ensures
        views(r@) == seq![a@, b@, c@],
{
    let mut r = list2(a, b);
    let ghost before = views(r@);
    r.push(c.to_string());
    assert(views(r@) =~= before.push(c@));
    assert(views(r@) =~= seq![a@, b@, c@]);
    r
}

/// Whether a name is in a list.
pub fn contains_name(names: &Vec<String>, name: &str) -> (r: bool)
    ensures
        r == views(names@).contains(name@),
{
    let ghost all = views(names@);
    let mut i: usize = 0;
    while i < names.len()
        invariant
            i <= names@.len(),
            all == views(names@),
            forall|k: int| 0 <= k < i ==> #[trigger] all[k] != name@,
        decreases names@.len() - i,
    {
        if same(names[i].as_str(), name) {
            assert(all[i as int] == name@);
            return true;
        }
        assert(all[i as int] != name@);
        i += 1;
    }
    false
}

/// What `{:?}` prints of a string.
pub uninterp spec fn debug_text(s: Seq<char>) -> Seq<char>;

/// The `Debug` format of `str`: the text in quotation marks, with escapes.
#[verifier::external_body]
pub(crate) fn debug_of(s: &str) -> (r: String)
    ensures
        r@ == debug_text(s@),
{
    format!("{s:?}")
}

// ---------------------------------------------------------------------------
// Classes of characters
// ---------------------------------------------------------------------------

/// The characters with Unicode's `White_Space` property.
pub open spec fn is_space(c: char) -> bool {
    let u = c as u32;
    ||| 0x09 <= u <= 0x0D
    ||| u == 0x20
    ||| u == 0x85
    ||| u == 0xA0
    ||| u == 0x1680
    ||| 0x2000 <= u <= 0x200A
    ||| u == 0x2028
    ||| u == 0x2029
    ||| u == 0x202F
    ||| u == 0x205F
    ||| u == 0x3000
}

/// A set of characters that text is cut at or trimmed by.
#[derive(Clone, Copy, Debug, PartialEq, Eq, Structural)]
pub enum CharClass {
    /// White space.
    Space,
    /// One character.
    Just(char),
    /// Either of two characters.
    Either(char, char),
    /// White space and the characters that end a word of a shell command.
    ShellBreak,
    /// The punctuation that a title does not end with.
    TitleEnd,
}

impl CharClass {
    /// Whether the class holds `c`.
    pub open spec fn has(self, c: char) -> bool {
        match self {
            CharClass::Space => is_space(c),
            CharClass::Just(d) => c == d,
            CharClass::Either(d, e) => c == d || c == e,
            CharClass::ShellBreak => is_space(c) || c == ';' || c == '|' || c == '&' || c == '(' || c == ')'
                || c == '<' || c == '>',
            CharClass::TitleEnd => c == '.' || c == ',' || c == ':' || c == ';',
        }
    }

    pub fn holds(self, c: char) -> (r: bool)
        ensures
            r == self.has(c),
    {
        match self {
            CharClass::Space => is_whitespace(c),
            CharClass::Just(d) => c == d,
            CharClass::Either(d, e) => c == d || c == e,
            CharClass::ShellBreak => is_whitespace(c) || c == ';' || c == '|' || c == '&' || c == '(' || c == ')'
                || c == '<' || c == '>',
            CharClass::TitleEnd => c == '.' || c == ',' || c == ':' || c == ';',
        }
    }
}

/// Whether `c` is white space.
pub fn is_whitespace(c: char) -> (r: bool)
    ensures
        r == is_space(c),
{
    let u: u32 = c as u32;
    (0x09 <= u && u <= 0x0D) || u == 0x20 || u == 0x85 || u == 0xA0 || u == 0x1680 || (0x2000 <= u
        && u <= 0x200A) || u == 0x2028 || u == 0x2029 || u == 0x202F || u == 0x205F || u == 0x3000
}

pub open spec fn is_digit(c: char) -> bool {
    0x30 <= c as u32 <= 0x39
}

/// The lower-case form of an ASCII letter; any other character as it is.
pub open spec fn ascii_lower_char(c: char) -> char {
    if 0x41 <= c as u32 <= 0x5A {
        ((c as u32) + 0x20) as char
    } else {
        c
    }
}

/// A text with its ASCII letters in lower case.
pub open spec fn ascii_lower(s: Seq<char>) -> Seq<char> {
    s.map_values(|c: char| ascii_lower_char(c))
}

fn lower_char(c: char) -> (r: char)
    ensures
        r == ascii_lower_char(c),
{
    let u: u32 = c as u32;
    if 0x41 <= u && u <= 0x5A {
        (u as u8 + 0x20) as char
    } else {
        c
    }
}

/// The text with its ASCII letters in lower case.
pub fn to_ascii_lowercase(s: &str) -> (r: String)
    ensures
        r@ == ascii_lower(s@),
{
    let cs = chars_of(s);
    let mut r = String::new();
    let mut i: usize = 0;
    while i < cs.len()
        invariant
            i <= cs@.len(),
            r@ == ascii_lower(cs@.take(i as int)),
        decreases cs@.len() - i,
    {
        r.push(lower_char(cs[i]));
        i += 1;
        assert(ascii_lower(cs@.take(i as int)) =~= ascii_lower(cs@.take(i - 1)).push(ascii_lower_char(cs@[i - 1])));
    }
    assert(cs@.take(i as int) =~= cs@);
    r
}

/// Whether two texts are equal up to the case of ASCII letters.
pub fn eq_ignore_ascii_case(a: &str, b: &str) -> (r: bool)
    ensures
        r == (ascii_lower(a@) == ascii_lower(b@)),
{
    let x = to_ascii_lowercase(a);
    let y = to_ascii_lowercase(b);
    x == y
}

// ---------------------------------------------------------------------------
// Trimming
// ---------------------------------------------------------------------------

/// The text without its leading characters of class `k`.
pub open spec fn trim_start(s: Seq<char>, k: CharClass) -> Seq<char>
    decreases s.len(),
{
    if s.len() > 0 && k.has(s[0]) {
        trim_start(s.skip(1), k)
    } else {
        s
    }
}

/// The text without its trailing characters of class `k`.
pub open spec fn trim_end(s: Seq<char>, k: CharClass) -> Seq<char>
    decreases s.len(),
{
    if s.len() > 0 && k.has(s.last()) {
        trim_end(s.drop_last(), k)
    } else {
        s
    }
}

/// The text without the characters of class `k` at either end.
pub open spec fn trim_both(s: Seq<char>, k: CharClass) -> Seq<char> {
    trim_end(trim_start(s, k), k)
}

/// The text without the white space at either end.
pub open spec fn trimmed(s: Seq<char>) -> Seq<char> {
    trim_both(s, CharClass::Space)
}

/// The index of the first character that is not of class `k`.
pub fn start_of(cs: &[char], k: CharClass) -> (i: usize)
    ensures
        i <= cs@.len(),
        cs@.skip(i as int) == trim_start(cs@, k),
{
    let mut i: usize = 0;
    assert(cs@.skip(0) =~= cs@);
    while i < cs.len() && k.holds(cs[i])
        invariant
            i <= cs@.len(),
            trim_start(cs@, k) == trim_start(cs@.skip(i as int), k),
        decreases cs@.len() - i,
    {
        assert(cs@.skip(i as int).skip(1) =~= cs@.skip(i + 1));
        i += 1;
    }
    i
}

/// The index behind the last character that is not of class `k`.
pub fn end_of(cs: &[char], k: CharClass) -> (j: usize)
    ensures
        j <= cs@.len(),
        cs@.take(j as int) == trim_end(cs@, k),
{
    let mut j: usize = cs.len();
    assert(cs@.take(j as int) =~= cs@);
    while j > 0 && k.holds(cs[j - 1])
        invariant
            j <= cs@.len(),
            trim_end(cs@, k) == trim_end(cs@.take(j as int), k),
        decreases j,
    {
        assert(cs@.take(j as int).drop_last() =~= cs@.take(j - 1));
        j -= 1;
    }
    j
}

pub fn trim_start_class(s: &str, k: CharClass) -> (r: String)
    ensures
        r@ == trim_start(s@, k),
{
    let cs = chars_of(s);
    let i: usize = start_of(cs.as_slice(), k);
    assert(cs@.subrange(i as int, cs@.len() as int) =~= cs@.skip(i as int));
    string_of(slice_subrange(cs.as_slice(), i, cs.len()))
}

pub fn trim_end_class(s: &str, k: CharClass) -> (r: String)
    ensures
        r@ == trim_end(s@, k),
{
    let cs = chars_of(s);
    let j: usize = end_of(cs.as_slice(), k);
    assert(cs@.subrange(0, j as int) =~= cs@.take(j as int));
    string_of(slice_subrange(cs.as_slice(), 0, j))
}

pub fn trim_class(s: &str, k: CharClass) -> (r: String)
    ensures
        r@ == trim_both(s@, k),
{
    let t = trim_start_class(s, k);
    trim_end_class(t.as_str(), k)
}

/// The text without the white space at either end.
pub fn trim(s: &str) -> (r: String)
    ensures
        r@ == trimmed(s@),
{
    trim_class(s, CharClass::Space)
}

// ---------------------------------------------------------------------------
// Cutting into pieces
// ---------------------------------------------------------------------------

/// The pieces between the characters of class `k`, empty ones kept.
pub open spec fn split(s: Seq<char>, k: CharClass) -> Seq<Seq<char>>
    decreases s.len(),
{
    if s.len() == 0 {
        seq![Seq::empty()]
    } else {
        let before = split(s.drop_last(), k);
        if k.has(s.last()) {
            before.push(Seq::empty())
        } else {
            before.drop_last().push(before.last().push(s.last()))
        }
    }
}

pub proof fn lemma_split_nonempty(s: Seq<char>, k: CharClass)
    ensures
        split(s, k).len() > 0,
    decreases s.len(),
{
    if s.len() > 0 {
        lemma_split_nonempty(s.drop_last(), k);
    }
}

pub fn split_class(s: &str, k: CharClass) -> (parts: Vec<String>)
    ensures
        views(parts@) == split(s@, k),
        parts@.len() > 0,
{
    let cs = chars_of(s);
    let mut parts: Vec<String> = Vec::new();
    let mut piece = String::new();
    let mut i: usize = 0;
    assert(views(parts@).push(piece@) =~= split(cs@.take(0), k));
    while i < cs.len()
        invariant
            i <= cs@.len(),
            views(parts@).push(piece@) == split(cs@.take(i as int), k),
        decreases cs@.len() - i,
    {
        let c = cs[i];
        let ghost before = views(parts@).push(piece@);
        assert(before.drop_last() =~= views(parts@));
        assert(cs@.take(i + 1).drop_last() =~= cs@.take(i as int));
        assert(cs@.take(i + 1).last() == c);
        if k.holds(c) {
            let ghost old_piece = piece@;
            let ghost old_parts = parts@;
            parts.push(piece);
            piece = String::new();
            assert(views(parts@) =~= views(old_parts).push(old_piece));
        } else {
            piece.push(c);
        }
        i += 1;
    }
    assert(cs@.take(i as int) =~= cs@);
    let ghost last = piece@;
    let ghost old_parts = parts@;
    parts.push(piece);
    assert(views(parts@) =~= views(old_parts).push(last));
    parts
}

/// The words of a text: its pieces between white space, without the empty ones.
pub open spec fn words(s: Seq<char>) -> Seq<Seq<char>> {
    nonempty(split(s, CharClass::Space))
}

/// The pieces that hold at least one character.
pub open spec fn nonempty(parts: Seq<Seq<char>>) -> Seq<Seq<char>>
    decreases parts.len(),
{
    if parts.len() == 0 {
        seq![]
    } else {
        let before = nonempty(parts.drop_last());
        if parts.last().len() > 0 {
            before.push(parts.last())
        } else {
            before
        }
    }
}

pub fn split_whitespace(s: &str) -> (parts: Vec<String>)
    ensures
        views(parts@) == words(s@),
{
    let all = split_class(s, CharClass::Space);
    let mut parts: Vec<String> = Vec::new();
    let mut i: usize = 0;
    assert(views(parts@) =~= nonempty(views(all@).take(0)));
    while i < all.len()
        invariant
            i <= all@.len(),
            views(parts@) == nonempty(views(all@).take(i as int)),
        decreases all@.len() - i,
    {
        assert(views(all@).take(i + 1).drop_last() =~= views(all@).take(i as int));
        assert(views(all@).take(i + 1).last() == all@[i as int]@);
        if !is_blank_len(&all[i]) {
            let ghost old_parts = parts@;
            parts.push(all[i].clone());
            assert(views(parts@) =~= views(old_parts).push(all@[i as int]@));
        }
        i += 1;
    }
    assert(views(all@).take(i as int) =~= views(all@));
    parts
}

/// Whether a string holds no character.
pub fn is_blank_len(s: &String) -> (r: bool)
    ensures
        r == (s@.len() == 0),
{
    let empty = String::new();
    assert(s@.len() == 0 ==> s@ =~= empty@);
    *s == empty
}

/// A line without the carriage return that its line feed follows.
pub open spec fn without_cr(line: Seq<char>) -> Seq<char> {
    if line.len() > 0 && line.last() == '\r' {
        line.drop_last()
    } else {
        line
    }
}

/// The lines of a text: each ends at a line feed or a carriage return and a line
/// feed, and the last one may end with the text.
pub open spec fn lines(s: Seq<char>) -> Seq<Seq<char>> {
    let pieces = split(s, CharClass::Just('\n'));
    let ended = pieces.drop_last().map_values(|p: Seq<char>| without_cr(p));
    if pieces.last().len() == 0 {
        ended
    } else {
        ended.push(pieces.last())
    }
}

/// Whether a text holds no line break.
pub open spec fn one_line(s: Seq<char>) -> bool {
    forall|i: int| 0 <= i < s.len() ==> #[trigger] s[i] != '\n' && s[i] != '\r'
}

proof fn lemma_split_behind(s: Seq<char>, t: Seq<char>)
    requires
        one_line(t),
    ensures
        split(s.push('\n') + t, CharClass::Just('\n')) == split(s, CharClass::Just('\n')).push(t),
    decreases t.len(),
{
    let k = CharClass::Just('\n');
    let whole = s.push('\n') + t;
    if t.len() == 0 {
        assert(whole =~= s.push('\n'));
        assert(whole.drop_last() =~= s);
        assert(t =~= Seq::empty());
    } else {
        lemma_split_behind(s, t.drop_last());
        assert(whole.drop_last() =~= s.push('\n') + t.drop_last());
        let before = split(whole.drop_last(), k);
        assert(before.drop_last() =~= split(s, k));
        assert(t.drop_last().push(t.last()) =~= t);
        assert(split(whole, k) =~= split(s, k).push(t));
    }
}

proof fn lemma_split_one_line(t: Seq<char>)
    requires
        one_line(t),
    ensures
        split(t, CharClass::Just('\n')) == seq![t],
    decreases t.len(),
{
    if t.len() == 0 {
        assert(t =~= Seq::empty());
    } else {
        lemma_split_one_line(t.drop_last());
        assert(t.drop_last().push(t.last()) =~= t);
        assert(split(t, CharClass::Just('\n')) =~= seq![t]);
    }
}

proof fn lemma_split_joined(parts: Seq<Seq<char>>)
    requires
        parts.len() > 0,
        forall|i: int| 0 <= i < parts.len() ==> one_line(#[trigger] parts[i]),
    ensures
        split(join(parts, "\n"@), CharClass::Just('\n')) == parts,
    decreases parts.len(),
{
    reveal_strlit("\n");
    if parts.len() == 1 {
        lemma_split_one_line(parts[0]);
        assert(seq![parts[0]] =~= parts);
    } else {
        let before = parts.drop_last();
        assert forall|i: int| 0 <= i < before.len() implies one_line(#[trigger] before[i]) by {
            assert(before[i] == parts[i]);
        }
        lemma_split_joined(before);
        lemma_split_behind(join(before, "\n"@), parts.last());
        assert(join(before, "\n"@) + "\n"@ =~= join(before, "\n"@).push('\n'));
        assert(before.push(parts.last()) =~= parts);
    }
}

/// Lines that are joined by line feeds come apart again, if none of them is empty.
pub proof fn joined_lines_come_apart(parts: Seq<Seq<char>>)
    requires
        parts.len() > 0,
        forall|i: int| 0 <= i < parts.len() ==> one_line(#[trigger] parts[i]) && parts[i].len() > 0,
    ensures
        lines(join(parts, "\n"@)) == parts,
{
    lemma_split_joined(parts);
    let ended = parts.drop_last().map_values(|p: Seq<char>| without_cr(p));
    assert forall|i: int| 0 <= i < parts.len() - 1 implies ended[i] == parts[i] by {
        let p = parts[i];
        assert(p.last() == p[p.len() - 1]);
    }
    assert(ended =~= parts.drop_last());
    assert(parts.drop_last().push(parts.last()) =~= parts);
}

fn strip_cr(line: &String) -> (r: String)
    ensures
        r@ == without_cr(line@),
{
    let cs = chars_of(line.as_str());
    if cs.len() > 0 && cs[cs.len() - 1] == '\r' {
        let n: usize = cs.len() - 1;
        assert(cs@.subrange(0, n as int) =~= cs@.drop_last());
        string_of(slice_subrange(cs.as_slice(), 0, n))
    } else {
        line.clone()
    }
}

pub fn lines_of(s: &str) -> (out: Vec<String>)
    ensures
        views(out@) == lines(s@),
{
    let pieces = split_class(s, CharClass::Just('\n'));
    let ghost ended = views(pieces@).drop_last().map_values(|p: Seq<char>| without_cr(p));
    let mut out: Vec<String> = Vec::new();
    let mut i: usize = 0;
    while i < pieces.len() - 1
        invariant
            i < pieces@.len(),
            ended == views(pieces@).drop_last().map_values(|p: Seq<char>| without_cr(p)),
            views(out@) == ended.take(i as int),
        decreases pieces@.len() - i,
    {
        let ghost old_out = out@;
        let line = strip_cr(&pieces[i]);
        out.push(line);
        assert(views(out@) =~= views(old_out).push(line@));
        assert(ended.take(i + 1) =~= ended.take(i as int).push(line@));
        i += 1;
    }
    assert(ended.take(i as int) =~= ended);
    if !is_blank_len(&pieces[i]) {
        let ghost old_out = out@;
        out.push(pieces[i].clone());
        assert(views(out@) =~= views(old_out).push(pieces@[i as int]@));
    }
    out
}

/// The pieces one after the other, with `sep` between each two.
pub open spec fn join(parts: Seq<Seq<char>>, sep: Seq<char>) -> Seq<char>
    decreases parts.len(),
{
    if parts.len() == 0 {
        seq![]
    } else if parts.len() == 1 {
        parts[0]
    } else {
        join(parts.drop_last(), sep) + sep + parts.last()
    }
}

pub fn join_strings(parts: &[String], sep: &str) -> (r: String)
    ensures
        r@ == join(views(parts@), sep@),
{
    let mut r = String::new();
    let mut i: usize = 0;
    let ghost all = views(parts@);
    while i < parts.len()
        invariant
            i <= parts@.len(),
            all == views(parts@),
            r@ == join(all.take(i as int), sep@),
        decreases parts@.len() - i,
    {
        assert(all.take(i + 1).drop_last() =~= all.take(i as int));
        assert(all.take(i + 1).last() == parts@[i as int]@);
        if i > 0 {
            r.push_str(sep);
        }
        r.push_str(parts[i].as_str());
        i += 1;
        if i == 1 {
            assert(r@ =~= all.take(1)[0]);
        }
    }
    assert(all.take(i as int) =~= all);
    r
}

// ---------------------------------------------------------------------------
// Searching
// ---------------------------------------------------------------------------

/// Whether `p` stands in `s` at index `i`.
pub open spec fn occurs_at(s: Seq<char>, p: Seq<char>, i: int) -> bool {
    0 <= i && i + p.len() <= s.len() && s.subrange(i, i + p.len()) == p
}

pub open spec fn contains(s: Seq<char>, p: Seq<char>) -> bool {
    exists|i: int| occurs_at(s, p, i)
}

pub open spec fn starts_with(s: Seq<char>, p: Seq<char>) -> bool {
    occurs_at(s, p, 0)
}

/// The first index at or behind `from` at which `p` stands in `s`.
pub open spec fn find_from(s: Seq<char>, p: Seq<char>, from: int) -> Option<int>
    decreases s.len() + 1 - from,
{
    if from < 0 || from + p.len() > s.len() {
        None
    } else if occurs_at(s, p, from) {
        Some(from)
    } else {
        find_from(s, p, from + 1)
    }
}

/// The first index at which `p` stands in `s`.
pub open spec fn find(s: Seq<char>, p: Seq<char>) -> Option<int> {
    find_from(s, p, 0)
}

/// `find_from` returns the least index at or behind `from` at which `p` stands.
pub proof fn lemma_find_from(s: Seq<char>, p: Seq<char>, from: int)
    requires
        0 <= from,
    ensures
        match find_from(s, p, from) {
            Some(i) => from <= i && occurs_at(s, p, i) && forall|j: int|
                from <= j < i ==> !occurs_at(s, p, j),
            None => forall|j: int| from <= j ==> !occurs_at(s, p, j),
        },
    decreases s.len() + 1 - from,
{
    if from + p.len() > s.len() {
    } else if occurs_at(s, p, from) {
    } else {
        lemma_find_from(s, p, from + 1);
    }
}

/// A text holds `p` exactly where `find` finds it.
pub proof fn lemma_contains_find(s: Seq<char>, p: Seq<char>)
    ensures
        contains(s, p) == (find(s, p) is Some),
{
    lemma_find_from(s, p, 0);
}

/// Whether `p` stands in `cs` at index `i`.
pub fn stands_at(cs: &[char], p: &[char], i: usize) -> (r: bool)
    ensures
        r == occurs_at(cs@, p@, i as int),
{
    if i > cs.len() || p.len() > cs.len() - i {
        return false;
    }
    let total: usize = cs.len();
    let mut k: usize = 0;
    while k < p.len()
        invariant
            k <= p@.len(),
            total == cs@.len(),
            i + p@.len() <= total,
            forall|j: int| 0 <= j < k ==> cs@[i + j] == p@[j],
        decreases p@.len() - k,
    {
        if cs[i + k] != p[k] {
            assert(cs@.subrange(i as int, i + p@.len())[k as int] != p@[k as int]);
            return false;
        }
        k += 1;
    }
    assert(cs@.subrange(i as int, i + p@.len()) =~= p@);
    true
}

pub fn find_chars(cs: &[char], p: &[char], from: usize) -> (r: Option<usize>)
    ensures
        match r {
            Some(i) => find_from(cs@, p@, from as int) == Some(i as int) && from <= i && i + p@.len()
                <= cs@.len(),
            None => find_from(cs@, p@, from as int) is None,
        },
{
    let mut i: usize = from;
    while i <= cs.len() && p.len() <= cs.len() - i
        invariant
            from <= i,
            i <= cs@.len() || i == from,
            find_from(cs@, p@, from as int) == find_from(cs@, p@, i as int),
        decreases cs@.len() + 1 - i,
    {
        if stands_at(cs, p, i) {
            return Some(i);
        }
        if i == cs.len() {
            assert(find_from(cs@, p@, i + 1) is None);
            return None;
        }
        i += 1;
    }
    None
}

/// Whether `s` holds `p`.
pub fn holds_text(s: &str, p: &str) -> (r: bool)
    ensures
        r == contains(s@, p@),
{
    let cs = chars_of(s);
    let ps = chars_of(p);
    proof {
        lemma_contains_find(s@, p@);
    }
    find_chars(cs.as_slice(), ps.as_slice(), 0).is_some()
}

pub fn has_prefix(s: &str, p: &str) -> (r: bool)
    ensures
        r == starts_with(s@, p@),
{
    let cs = chars_of(s);
    let ps = chars_of(p);
    stands_at(cs.as_slice(), ps.as_slice(), 0)
}

/// The text behind the prefix `p`, where it stands.
pub fn strip_prefix(s: &str, p: &str) -> (r: Option<String>)
    ensures
        match r {
            Some(t) => starts_with(s@, p@) && t@ == s@.skip(p@.len() as int),
            None => !starts_with(s@, p@),
        },
{
    let cs = chars_of(s);
    let ps = chars_of(p);
    if stands_at(cs.as_slice(), ps.as_slice(), 0) {
        assert(cs@.subrange(ps@.len() as int, cs@.len() as int) =~= cs@.skip(ps@.len() as int));
        Some(string_of(slice_subrange(cs.as_slice(), ps.len(), cs.len())))
    } else {
        None
    }
}

/// The text with each occurrence of `p`, taken from the left, replaced by `q`.
pub open spec fn replace(s: Seq<char>, p: Seq<char>, q: Seq<char>) -> Seq<char>
    decreases s.len(),
{
    match find(s, p) {
        Some(i) if p.len() > 0 && 0 <= i && i + p.len() <= s.len() => s.take(i) + q + replace(
            s.skip(i + p.len()),
            p,
            q,
        ),
        _ => s,
    }
}

/// How often `p` stands in `s`, counted from the left without overlap.
pub open spec fn count(s: Seq<char>, p: Seq<char>) -> nat
    decreases s.len(),
{
    match find(s, p) {
        Some(i) if p.len() > 0 && 0 <= i && i + p.len() <= s.len() => 1 + count(
            s.skip(i + p.len()),
            p,
        ),
        _ => 0,
    }
}

/// Searching behind `from` finds what searching the rest of the text finds.
pub proof fn lemma_find_skip(s: Seq<char>, p: Seq<char>, at: int, from: int)
    requires
        0 <= at <= from,
        at <= s.len(),
    ensures
        find_from(s, p, from) == match find_from(s.skip(at), p, from - at) {
            Some(i) => Some(i + at),
            None => None,
        },
    decreases s.len() + 1 - from,
{
    if from + p.len() <= s.len() {
        assert(s.skip(at).subrange(from - at, from - at + p.len()) =~= s.subrange(from, from + p.len()));
        lemma_find_skip(s, p, at, from + 1);
    }
}

/// The text with each occurrence of `p` replaced by `q`; `p` is not empty.
pub fn replace_text(s: &str, p: &str, q: &str) -> (r: String)
    requires
        p@.len() > 0,
    ensures
        r@ == replace(s@, p@, q@),
{
    let cs = chars_of(s);
    let ps = chars_of(p);
    let total: usize = cs.len();
    let mut r = String::new();
    let mut at: usize = 0;
    assert(cs@.skip(0) =~= cs@);
    loop
        invariant_except_break
            at <= cs@.len(),
            r@ + replace(cs@.skip(at as int), p@, q@) == replace(cs@, p@, q@),
        invariant
            ps@ == p@,
            p@.len() > 0,
            total == cs@.len(),
        ensures
            r@ == replace(cs@, p@, q@),
        decreases cs@.len() - at,
    {
        proof {
            lemma_find_skip(cs@, p@, at as int, at as int);
            lemma_find_from(cs@.skip(at as int), p@, 0);
        }
        match find_chars(cs.as_slice(), ps.as_slice(), at) {
            Some(i) => {
                let ghost before = r@;
                let head = string_of(slice_subrange(cs.as_slice(), at, i));
                r.push_str(head.as_str());
                r.push_str(q);
                let next: usize = i + ps.len();
                proof {
                    let rest = cs@.skip(at as int);
                    assert(rest.take(i - at) =~= head@);
                    assert(rest.skip(i - at + p@.len()) =~= cs@.skip(next as int));
                    assert(replace(rest, p@, q@) == head@ + q@ + replace(cs@.skip(next as int), p@, q@));
                    assert(r@ + replace(cs@.skip(next as int), p@, q@) =~= before + (head@ + q@ + replace(
                        cs@.skip(next as int),
                        p@,
                        q@,
                    )));
                }
                at = next;
            },
            None => {
                let tail = string_of(slice_subrange(cs.as_slice(), at, cs.len()));
                assert(tail@ =~= cs@.skip(at as int));
                r.push_str(tail.as_str());
                break;
            },
        }
    }
    r
}

/// How often `p`, which is not empty, stands in `s`.
pub fn count_text(s: &str, p: &str) -> (n: usize)
    requires
        p@.len() > 0,
    ensures
        n == count(s@, p@),
{
    let cs = chars_of(s);
    let ps = chars_of(p);
    let total: usize = cs.len();
    let mut n: usize = 0;
    let mut at: usize = 0;
    assert(cs@.skip(0) =~= cs@);
    loop
        invariant_except_break
            at <= cs@.len(),
            n <= at,
            n + count(cs@.skip(at as int), p@) == count(cs@, p@),
        invariant
            ps@ == p@,
            p@.len() > 0,
            total == cs@.len(),
        ensures
            n == count(cs@, p@),
        decreases cs@.len() - at,
    {
        proof {
            lemma_find_skip(cs@, p@, at as int, at as int);
            lemma_find_from(cs@.skip(at as int), p@, 0);
        }
        match find_chars(cs.as_slice(), ps.as_slice(), at) {
            Some(i) => {
                let next: usize = i + ps.len();
                assert(cs@.skip(at as int).skip(i - at + p@.len()) =~= cs@.skip(next as int));
                n += 1;
                at = next;
            },
            None => {
                break;
            },
        }
    }
    n
}

// ---------------------------------------------------------------------------
// Decimal numbers
// ---------------------------------------------------------------------------

pub open spec fn digit_char(d: nat) -> char {
    (0x30 + d) as char
}

/// The decimal notation of a number.
pub open spec fn decimal(n: nat) -> Seq<char>
    decreases n,
{
    if n < 10 {
        seq![digit_char(n)]
    } else {
        decimal(n / 10).push(digit_char(n % 10))
    }
}

/// Appends the decimal notation of `n`.
pub fn push_decimal(s: &mut String, n: u64)
    ensures
        final(s)@ == old(s)@ + decimal(n as nat),
    decreases n,
{
    if n >= 10 {
        push_decimal(s, n / 10);
    }
    let d: u8 = (n % 10) as u8;
    let ghost before = s@;
    s.push((0x30 + d) as char);
    assert(s@ =~= old(s)@ + decimal(n as nat));
}

/// The decimal notation of `n`.
pub fn decimal_text(n: u64) -> (s: String)
    ensures
        s@ == decimal(n as nat),
{
    let mut s = String::new();
    push_decimal(&mut s, n);
    assert(s@ =~= decimal(n as nat));
    s
}

/// The digits of a number, behind its sign where it is negative.
pub open spec fn signed_decimal(n: int) -> Seq<char> {
    if n < 0 {
        "-"@ + decimal((-n) as nat)
    } else {
        decimal(n as nat)
    }
}

/// The number written out.
pub fn signed_text(n: i64) -> (r: String)
    ensures
        r@ == signed_decimal(n as int),
{
    if n == i64::MIN {
        cat2("-", decimal_text(9223372036854775808).as_str())
    } else if n < 0 {
        let m: i64 = 0 - n;
        cat2("-", decimal_text(m as u64).as_str())
    } else {
        decimal_text(n as u64)
    }
}

pub open spec fn all_digits(s: Seq<char>) -> bool {
    forall|i: int| 0 <= i < s.len() ==> is_digit(#[trigger] s[i])
}

/// The number that a sequence of decimal digits denotes.
pub open spec fn digits_value(s: Seq<char>) -> nat
    decreases s.len(),
{
    if s.len() == 0 {
        0
    } else {
        (digits_value(s.drop_last()) * 10 + (s.last() as u32 - 0x30)) as nat
    }
}

/// The digits of an unsigned number's notation, which may start with a plus sign.
pub open spec fn unsigned_digits(s: Seq<char>) -> Seq<char> {
    if s.len() > 0 && s[0] == '+' {
        s.skip(1)
    } else {
        s
    }
}

/// The number that a text denotes, if it is one that is at most `max`.
pub open spec fn parse_unsigned(s: Seq<char>, max: nat) -> Option<nat> {
    let ds = unsigned_digits(s);
    if ds.len() > 0 && all_digits(ds) && digits_value(ds) <= max {
        Some(digits_value(ds))
    } else {
        None
    }
}

pub proof fn lemma_digits_value_grows(s: Seq<char>, n: int)
    requires
        0 <= n <= s.len(),
        all_digits(s),
    ensures
        digits_value(s.take(n)) <= digits_value(s),
    decreases s.len() - n,
{
    if n < s.len() {
        let t = s.take(n + 1);
        assert(t.drop_last() =~= s.take(n));
        assert(is_digit(s[n]));
        lemma_digits_value_grows(s, n + 1);
    } else {
        assert(s.take(n) =~= s);
    }
}

/// The number that `s` denotes, if it fits in 64 bits.
pub fn parse_u64(s: &str) -> (r: Option<u64>)
    ensures
        match r {
            Some(n) => parse_unsigned(s@, u64::MAX as nat) == Some(n as nat),
            None => parse_unsigned(s@, u64::MAX as nat) is None,
        },
{
    let cs = chars_of(s);
    let start: usize = if cs.len() > 0 && cs[0] == '+' { 1 } else { 0 };
    let ghost ds = unsigned_digits(s@);
    assert(ds =~= cs@.skip(start as int));
    if start == cs.len() {
        return None;
    }
    let mut n: u64 = 0;
    let mut i: usize = start;
    while i < cs.len()
        invariant
            start <= i <= cs@.len(),
            start <= 1,
            cs@ == s@,
            ds == cs@.skip(start as int),
            ds == unsigned_digits(s@),
            all_digits(ds.take(i - start)),
            n == digits_value(ds.take(i - start)),
        decreases cs@.len() - i,
    {
        let u: u32 = cs[i] as u32;
        assert(ds[i - start] == cs@[i as int]);
        if u < 0x30 || u > 0x39 {
            assert(!is_digit(ds[i - start]));
            return None;
        }
        let d: u64 = (u - 0x30) as u64;
        let ghost k = i - start;
        assert(ds.take(k + 1).drop_last() =~= ds.take(k));
        assert(ds.take(k + 1).last() == ds[k]);
        if n > (u64::MAX - d) / 10 {
            proof {
                if all_digits(ds) {
                    lemma_digits_value_grows(ds, k + 1);
                }
            }
            return None;
        }
        n = n * 10 + d;
        assert forall|j: int| 0 <= j < k + 1 implies is_digit(#[trigger] ds.take(k + 1)[j]) by {
            if j < k {
                assert(ds.take(k)[j] == ds[j]);
            }
        }
        i += 1;
    }
    assert(ds.take(i - start) =~= ds);
    Some(n)
}

// ---------------------------------------------------------------------------
// UTF-8
// ---------------------------------------------------------------------------

/// How many bytes a text takes in UTF-8.
pub open spec fn byte_len(s: Seq<char>) -> nat {
    vstd::utf8::encode_utf8(s).len()
}

/// How many bytes a character takes in UTF-8.
pub open spec fn char_width(c: char) -> nat {
    vstd::utf8::encode_scalar(c as u32).len()
}

pub proof fn lemma_byte_len_push(s: Seq<char>, c: char)
    ensures
        byte_len(s.push(c)) == byte_len(s) + char_width(c),
    decreases s.len(),
{
    let t = s.push(c);
    if s.len() == 0 {
        assert(t.drop_first() =~= s);
        reveal_with_fuel(vstd::utf8::encode_utf8, 2);
    } else {
        assert(t.drop_first() =~= s.drop_first().push(c));
        lemma_byte_len_push(s.drop_first(), c);
    }
}

/// The number of bytes that `c` takes in UTF-8.
pub fn width_of(c: char) -> (n: usize)
    ensures
        n == char_width(c),
        1 <= n <= 4,
{
    broadcast use vstd::utf8::char_is_scalar;

    let u: u32 = c as u32;
    if u < 0x80 {
        1
    } else if u < 0x800 {
        2
    } else if u < 0x10000 {
        3
    } else {
        4
    }
}

/// The length of the longest prefix that takes at most `limit` bytes.
pub open spec fn cap_len(s: Seq<char>, limit: nat) -> int
    decreases s.len(),
{
    if s.len() == 0 || byte_len(s) <= limit {
        s.len() as int
    } else {
        cap_len(s.drop_last(), limit)
    }
}

/// The longest prefix that takes at most `limit` bytes.
pub open spec fn capped(s: Seq<char>, limit: nat) -> Seq<char> {
    s.take(cap_len(s, limit))
}

pub proof fn lemma_cap_len_bound(s: Seq<char>, limit: nat)
    ensures
        0 <= cap_len(s, limit) <= s.len(),
    decreases s.len(),
{
    if s.len() > 0 && byte_len(s) > limit {
        lemma_cap_len_bound(s.drop_last(), limit);
    }
}

proof fn lemma_cap_len_over(s: Seq<char>, limit: nat, n: int)
    requires
        0 <= n < s.len(),
        byte_len(s.take(n)) <= limit,
        byte_len(s.take(n + 1)) > limit,
    ensures
        cap_len(s, limit) == n,
    decreases s.len(),
{
    let k = s.len() - 1;
    assert(s.drop_last() =~= s.take(k));
    if n == k {
        assert(s.take(n + 1) =~= s);
        assert(cap_len(s.take(k), limit) == k);
    } else {
        lemma_byte_len_monotone(s, n + 1);
        assert(s.take(k).take(n) =~= s.take(n));
        assert(s.take(k).take(n + 1) =~= s.take(n + 1));
        lemma_cap_len_over(s.drop_last(), limit, n);
    }
}

/// A prefix takes at most as many bytes as the text.
pub proof fn lemma_byte_len_monotone(s: Seq<char>, n: int)
    requires
        0 <= n <= s.len(),
    ensures
        byte_len(s.take(n)) <= byte_len(s),
    decreases s.len() - n,
{
    if n == s.len() {
        assert(s.take(n) =~= s);
    } else {
        assert(s.take(n + 1) =~= s.take(n).push(s[n]));
        lemma_byte_len_push(s.take(n), s[n]);
        lemma_byte_len_monotone(s, n + 1);
    }
}

/// The longest prefix of `s` that takes at most `limit` bytes, and whether that is
/// less than the whole.
pub fn cap_bytes(s: &str, limit: usize) -> (r: (String, bool))
    ensures
        r.0@ == capped(s@, limit as nat),
        r.1 == (byte_len(s@) > limit),
{
    let cs = chars_of(s);
    let mut used: usize = 0;
    let mut i: usize = 0;
    assert(cs@.take(0) =~= seq![]);
    while i < cs.len()
        invariant
            i <= cs@.len(),
            cs@ == s@,
            used <= limit,
            used == byte_len(cs@.take(i as int)),
        decreases cs@.len() - i,
    {
        let w: usize = width_of(cs[i]);
        proof {
            assert(cs@.take(i + 1) =~= cs@.take(i as int).push(cs@[i as int]));
            lemma_byte_len_push(cs@.take(i as int), cs@[i as int]);
        }
        if w > limit - used {
            proof {
                lemma_cap_len_over(cs@, limit as nat, i as int);
                lemma_byte_len_monotone(cs@, i + 1);
            }
            assert(cs@.subrange(0, i as int) =~= cs@.take(i as int));
            return (string_of(slice_subrange(cs.as_slice(), 0, i)), true);
        }
        used += w;
        i += 1;
    }
    assert(cs@.take(i as int) =~= cs@);
    (s.to_string(), false)
}

/// The number of bytes that `s` takes in UTF-8.
pub fn byte_len_of(s: &str) -> (n: usize)
    ensures
        n == byte_len(s@),
{
    s.as_bytes().len()
}

/// `String::from_utf8`: the text that the bytes encode, where they are valid UTF-8.
#[verifier::external_body]
pub(crate) fn text_of_utf8(bytes: Vec<u8>) -> (r: Option<String>)
    ensures
        match r {
            Some(s) => vstd::utf8::valid_utf8(bytes@) && s@ == vstd::utf8::decode_utf8(bytes@),
            None => !vstd::utf8::valid_utf8(bytes@),
        },
{
    String::from_utf8(bytes).ok()
}

/// What `String::from_utf8_lossy` makes of bytes.
pub uninterp spec fn lossy_text(bytes: Seq<u8>) -> Seq<char>;

/// `String::from_utf8_lossy`: the text that the bytes encode, with U+FFFD in place of
/// what is not valid.
#[verifier::external_body]
pub(crate) fn lossy_of(bytes: &[u8]) -> (r: String)
    ensures
        r@ == lossy_text(bytes@),
        vstd::utf8::valid_utf8(bytes@) ==> r@ == vstd::utf8::decode_utf8(bytes@),
{
    String::from_utf8_lossy(bytes).to_string()
}

/// The text with the first occurrence of `p` replaced by `q`.
pub open spec fn replace_first(s: Seq<char>, p: Seq<char>, q: Seq<char>) -> Seq<char> {
    match find(s, p) {
        Some(i) => s.take(i) + q + s.skip(i + p.len()),
        None => s,
    }
}

pub fn replace_first_text(s: &str, p: &str, q: &str) -> (r: String)
    ensures
        r@ == replace_first(s@, p@, q@),
{
    let cs = chars_of(s);
    let ps = chars_of(p);
    let n: usize = cs.len();
    match find_chars(cs.as_slice(), ps.as_slice(), 0) {
        Some(i) => {
            let head = string_of(slice_subrange(cs.as_slice(), 0, i));
            let tail = string_of(slice_subrange(cs.as_slice(), i + ps.len(), n));
            assert(head@ =~= s@.take(i as int));
            assert(tail@ =~= s@.skip(i + p@.len()));
            cat3(head.as_str(), q, tail.as_str())
        },
        None => s.to_string(),
    }
}

/// The number that `s` denotes, if it fits in the machine's word.
pub fn parse_usize(s: &str) -> (r: Option<usize>)
    ensures
        match r {
            Some(n) => parse_unsigned(s@, usize::MAX as nat) == Some(n as nat),
            None => parse_unsigned(s@, usize::MAX as nat) is None,
        },
{
    match parse_u64(s) {
        Some(n) => if n <= usize::MAX as u64 {
            Some(n as usize)
        } else {
            None
        },
        None => None,
    }
}

/// The text without the prefix `p`, taken off as often as it stands there.
pub open spec fn trim_prefixes(s: Seq<char>, p: Seq<char>) -> Seq<char>
    decreases s.len(),
{
    if p.len() > 0 && starts_with(s, p) {
        trim_prefixes(s.skip(p.len() as int), p)
    } else {
        s
    }
}

pub fn trim_start_matches(s: &str, p: &str) -> (r: String)
    ensures
        r@ == trim_prefixes(s@, p@),
{
    let cs = chars_of(s);
    let ps = chars_of(p);
    let total: usize = cs.len();
    let mut at: usize = 0;
    assert(cs@.skip(0) =~= cs@);
    while ps.len() > 0 && stands_at(cs.as_slice(), ps.as_slice(), at)
        invariant
            at <= total,
            total == cs@.len(),
            ps@ == p@,
            trim_prefixes(s@, p@) == trim_prefixes(cs@.skip(at as int), p@),
        decreases total - at,
    {
        let ghost rest = cs@.skip(at as int);
        assert(rest.subrange(0, p@.len() as int) =~= cs@.subrange(at as int, at + p@.len()));
        assert(rest.skip(p@.len() as int) =~= cs@.skip(at + p@.len()));
        at += ps.len();
    }
    assert(!starts_with(cs@.skip(at as int), p@) || p@.len() == 0) by {
        let rest = cs@.skip(at as int);
        if starts_with(rest, p@) && p@.len() > 0 {
            assert(rest.subrange(0, p@.len() as int) =~= cs@.subrange(at as int, at + p@.len()));
        }
    }
    let r = string_of(slice_subrange(cs.as_slice(), at, total));
    assert(r@ =~= cs@.skip(at as int));
    r
}

/// The pieces one after the other.
pub open spec fn concat(parts: Seq<Seq<char>>) -> Seq<char>
    decreases parts.len(),
{
    if parts.len() == 0 {
        seq![]
    } else {
        concat(parts.drop_last()) + parts.last()
    }
}

pub fn concat_strings(parts: &[String]) -> (r: String)
    ensures
        r@ == concat(views(parts@)),
{
    let mut r = String::new();
    let mut i: usize = 0;
    let ghost all = views(parts@);
    while i < parts.len()
        invariant
            i <= parts@.len(),
            all == views(parts@),
            r@ == concat(all.take(i as int)),
        decreases parts@.len() - i,
    {
        assert(all.take(i + 1).drop_last() =~= all.take(i as int));
        r.push_str(parts[i].as_str());
        i += 1;
    }
    assert(all.take(i as int) =~= all);
    r
}

/// The lines of a text with their line ends; only the last one may lack it.
pub open spec fn full_lines(s: Seq<char>) -> Seq<Seq<char>> {
    let pieces = split(s, CharClass::Just('\n'));
    let ended = pieces.drop_last().map_values(|p: Seq<char>| p.push('\n'));
    if pieces.last().len() == 0 {
        ended
    } else {
        ended.push(pieces.last())
    }
}

/// The lines of the text with their line ends.
pub fn split_lines_lossless(s: &str) -> (out: Vec<String>)
    ensures
        views(out@) == full_lines(s@),
{
    let pieces = split_class(s, CharClass::Just('\n'));
    let ghost ended = views(pieces@).drop_last().map_values(|p: Seq<char>| p.push('\n'));
    let mut out: Vec<String> = Vec::new();
    let mut i: usize = 0;
    while i < pieces.len() - 1
        invariant
            i < pieces@.len(),
            ended == views(pieces@).drop_last().map_values(|p: Seq<char>| p.push('\n')),
            views(out@) == ended.take(i as int),
        decreases pieces@.len() - i,
    {
        let ghost old_out = out@;
        let mut line = pieces[i].clone();
        line.push('\n');
        out.push(line);
        assert(views(out@) =~= views(old_out).push(line@));
        assert(ended.take(i + 1) =~= ended.take(i as int).push(line@));
        i += 1;
    }
    assert(ended.take(i as int) =~= ended);
    if !is_blank_len(&pieces[i]) {
        let ghost old_out = out@;
        out.push(pieces[i].clone());
        assert(views(out@) =~= views(old_out).push(pieces@[i as int]@));
    }
    out
}

/// The lines of a text, put together, are the text.
pub proof fn full_lines_lose_nothing(s: Seq<char>)
    ensures
        concat(full_lines(s)) == s,
{
    lemma_split_nonempty(s, CharClass::Just('\n'));
    lemma_split_rejoins(s);
    let pieces = split(s, CharClass::Just('\n'));
    let ended = pieces.drop_last().map_values(|p: Seq<char>| p.push('\n'));
    if pieces.last().len() == 0 {
        assert(concat(ended) + pieces.last() =~= concat(ended));
    } else {
        assert(ended.push(pieces.last()).drop_last() =~= ended);
    }
}

proof fn lemma_split_rejoins(s: Seq<char>)
    ensures
        concat(
            split(s, CharClass::Just('\n')).drop_last().map_values(|p: Seq<char>| p.push('\n')),
        ) + split(s, CharClass::Just('\n')).last() == s,
    decreases s.len(),
{
    let k = CharClass::Just('\n');
    let pieces = split(s, k);
    if s.len() == 0 {
        assert(pieces.drop_last().map_values(|p: Seq<char>| p.push('\n')) =~= seq![]);
        assert(concat(seq![]) + pieces.last() =~= s);
    } else {
        let t = s.drop_last();
        let before = split(t, k);
        lemma_split_rejoins(t);
        lemma_split_nonempty(t, k);
        let ended = before.drop_last().map_values(|p: Seq<char>| p.push('\n'));
        if k.has(s.last()) {
            assert(pieces.drop_last() =~= before);
            let all = before.map_values(|p: Seq<char>| p.push('\n'));
            assert(all.drop_last() =~= ended);
            assert(all.last() =~= before.last().push('\n'));
            assert(concat(all) + pieces.last() =~= (concat(ended) + before.last()).push('\n'));
            assert(t.push('\n') =~= s);
        } else {
            assert(pieces.drop_last() =~= before.drop_last());
            assert(concat(ended) + before.last().push(s.last()) =~= (concat(ended) + before.last()).push(s.last()));
            assert(t.push(s.last()) =~= s);
        }
    }
}

// ---------------------------------------------------------------------------
// Case
// ---------------------------------------------------------------------------

/// What `str::to_lowercase` makes of a text.
pub uninterp spec fn lowercase(s: Seq<char>) -> Seq<char>;

/// `str::to_lowercase`: the lower-case equivalent of the text.
#[verifier::external_body]
pub(crate) fn lowercase_of(s: &str) -> (r: String)
    ensures
        r@ == lowercase(s@),
{
    s.to_lowercase()
}

// ---------------------------------------------------------------------------
// First words
// ---------------------------------------------------------------------------

proof fn lemma_trim_push(t: Seq<char>, c: char)
    ensures
        trim_start(t.push(c), CharClass::Space) == (if trim_start(t, CharClass::Space).len() > 0
            || !is_space(c) {
            trim_start(t, CharClass::Space).push(c)
        } else {
            Seq::empty()
        }),
    decreases t.len(),
{
    let k = CharClass::Space;
    let s = t.push(c);
    if t.len() == 0 {
        assert(s.skip(1) =~= Seq::empty());
        assert(s =~= Seq::empty().push(c));
        reveal_with_fuel(trim_start, 2);
    } else if k.has(t[0]) {
        assert(s.skip(1) =~= t.skip(1).push(c));
        lemma_trim_push(t.skip(1), c);
    }
}

proof fn lemma_nonempty_push(parts: Seq<Seq<char>>, p: Seq<char>)
    ensures
        nonempty(parts.push(p)) == (if p.len() > 0 {
            nonempty(parts).push(p)
        } else {
            nonempty(parts)
        }),
{
    assert(parts.push(p).drop_last() =~= parts);
}

proof fn lemma_first_word_parts(s: Seq<char>)
    ensures
        words(s).len() > 0 ==> starts_with(trim_start(s, CharClass::Space), words(s)[0]),
        words(s).len() == 0 ==> trim_start(s, CharClass::Space).len() == 0,
        nonempty(split(s, CharClass::Space).drop_last()).len() == 0 ==> trim_start(
            s,
            CharClass::Space,
        ) == split(s, CharClass::Space).last(),
    decreases s.len(),
{
    let k = CharClass::Space;
    let pieces = split(s, k);
    if s.len() == 0 {
        assert(pieces.drop_last() =~= seq![]);
        lemma_nonempty_push(seq![], Seq::empty());
        assert(seq![].push(Seq::<char>::empty()) =~= pieces);
        assert(trim_start(s, k) =~= pieces.last());
    } else {
        let t = s.drop_last();
        let c = s.last();
        let before = split(t, k);
        lemma_first_word_parts(t);
        lemma_split_nonempty(t, k);
        assert(t.push(c) =~= s);
        lemma_trim_push(t, c);
        let trimmed_t = trim_start(t, k);
        let trimmed_s = trim_start(s, k);
        assert(before.drop_last().push(before.last()) =~= before);
        lemma_nonempty_push(before.drop_last(), before.last());
        if is_space(c) {
            assert(pieces.drop_last() =~= before);
            lemma_nonempty_push(before, Seq::empty());
            assert(words(s) == words(t));
            if words(t).len() > 0 {
                let w = words(t)[0];
                if trimmed_t.len() > 0 {
                    assert(trimmed_s.subrange(0, w.len() as int) =~= trimmed_t.subrange(
                        0,
                        w.len() as int,
                    ));
                } else {
                    assert(w.len() == 0);
                    lemma_words_nonempty(split(t, k), 0);
                }
            }
            if nonempty(pieces.drop_last()).len() == 0 {
                assert(words(t).len() == 0);
                assert(trimmed_s =~= pieces.last());
            }
        } else {
            let last = before.last().push(c);
            assert(pieces == before.drop_last().push(last));
            assert(pieces.drop_last() =~= before.drop_last());
            lemma_nonempty_push(before.drop_last(), last);
            assert(trimmed_s == trimmed_t.push(c));
            if nonempty(before.drop_last()).len() > 0 {
                assert(words(s)[0] == nonempty(before.drop_last())[0]);
                assert(words(t)[0] == nonempty(before.drop_last())[0]);
                let w = words(t)[0];
                assert(trimmed_s.subrange(0, w.len() as int) =~= trimmed_t.subrange(
                    0,
                    w.len() as int,
                ));
            } else {
                assert(trimmed_t == before.last());
                assert(words(s)[0] == last);
                assert(trimmed_s.subrange(0, last.len() as int) =~= last);
            }
        }
    }
}

proof fn lemma_words_nonempty(parts: Seq<Seq<char>>, i: int)
    requires
        0 <= i < nonempty(parts).len(),
    ensures
        nonempty(parts)[i].len() > 0,
    decreases parts.len(),
{
    if parts.len() > 0 && i < nonempty(parts.drop_last()).len() {
        lemma_words_nonempty(parts.drop_last(), i);
    }
}

/// A text starts with its first word, apart from white space.
pub proof fn lemma_first_word(s: Seq<char>)
    requires
        words(s).len() > 0,
    ensures
        starts_with(trim_start(s, CharClass::Space), words(s)[0]),
{
    lemma_first_word_parts(s);
}

// ---------------------------------------------------------------------------
// Regular expressions
// ---------------------------------------------------------------------------

/// Whether a text matches a regular expression; nothing where the expression is invalid.
pub uninterp spec fn regex_matches(pattern: Seq<char>, s: Seq<char>) -> Option<bool>;

/// `regex::Regex::new` and `Regex::is_match`: whether the expression matches somewhere in
/// the text, or nothing where it does not compile.
#[verifier::external_body]
pub(crate) fn regex_match(pattern: &str, s: &str) -> (r: Option<bool>)
    ensures
        r == regex_matches(pattern@, s@),
{
    regex::Regex::new(pattern).ok().map(|re| re.is_match(s))
}

// ---------------------------------------------------------------------------
// What the pieces of a text are
// ---------------------------------------------------------------------------

/// Whether no character of a text is of a class.
pub open spec fn free_of(s: Seq<char>, k: CharClass) -> bool {
    forall|i: int| 0 <= i < s.len() ==> !k.has(#[trigger] s[i])
}

/// Cutting two texts that a character of the class parts gives the pieces of the one and
/// then the pieces of the other.
pub proof fn pieces_come_apart(s: Seq<char>, c: char, t: Seq<char>, k: CharClass)
    requires
        k.has(c),
    ensures
        split(s.push(c) + t, k) == split(s, k) + split(t, k),
    decreases t.len(),
{
    let whole = s.push(c) + t;
    if t.len() == 0 {
        assert(whole =~= s.push(c));
        assert(whole.drop_last() =~= s);
        assert(split(whole, k) =~= split(s, k) + split(t, k));
    } else {
        pieces_come_apart(s, c, t.drop_last(), k);
        lemma_split_nonempty(t.drop_last(), k);
        let first = split(s, k);
        let rest = split(t.drop_last(), k);
        assert(whole.drop_last() =~= s.push(c) + t.drop_last());
        if k.has(t.last()) {
            assert((first + rest).push(Seq::empty()) =~= first + rest.push(Seq::empty()));
        } else {
            let last = rest.last().push(t.last());
            assert((first + rest).drop_last().push(last) =~= first + rest.drop_last().push(last));
        }
    }
}

/// A text without a character of the class is its own only piece.
pub proof fn a_text_without_breaks_is_one_piece(t: Seq<char>, k: CharClass)
    requires
        free_of(t, k),
    ensures
        split(t, k) == seq![t],
    decreases t.len(),
{
    if t.len() > 0 {
        assert forall|i: int| 0 <= i < t.drop_last().len() implies !k.has(
            #[trigger] t.drop_last()[i],
        ) by {
            assert(!k.has(t[i]));
        }
        a_text_without_breaks_is_one_piece(t.drop_last(), k);
        assert(!k.has(t[t.len() - 1]));
        assert(t.drop_last().push(t.last()) =~= t);
        assert(split(t, k) =~= seq![t]);
    } else {
        assert(t =~= Seq::empty());
    }
}

/// Whether `w` stands in `s` with a character of the class, or the end of the text, on
/// either side of it.
pub open spec fn stands_between(s: Seq<char>, k: CharClass, w: Seq<char>) -> bool {
    exists|i: int|
        #[trigger] occurs_at(s, w, i) && (i == 0 || k.has(s[i - 1])) && (i + w.len() == s.len()
            || k.has(s[i + w.len()]))
}

spec fn stands_before_break(s: Seq<char>, k: CharClass, w: Seq<char>) -> bool {
    exists|i: int|
        #[trigger] occurs_at(s, w, i) && (i == 0 || k.has(s[i - 1])) && i + w.len() < s.len()
            && k.has(s[i + w.len()])
}

spec fn last_piece(s: Seq<char>, k: CharClass, t: Seq<char>) -> bool {
    &&& t.len() <= s.len()
    &&& s.skip(s.len() - t.len()) == t
    &&& free_of(t, k)
    &&& t.len() == s.len() || k.has(s[s.len() - t.len() - 1])
}

proof fn lemma_last_piece(s: Seq<char>, k: CharClass, t: Seq<char>, u: Seq<char>)
    requires
        last_piece(s, k, t),
        last_piece(s, k, u),
    ensures
        t == u,
{
    if t.len() < u.len() {
        assert(u[u.len() - t.len() - 1] == s[s.len() - t.len() - 1]);
    } else if u.len() < t.len() {
        assert(t[t.len() - u.len() - 1] == s[s.len() - u.len() - 1]);
    }
}

proof fn lemma_pieces(s: Seq<char>, k: CharClass, w: Seq<char>)
    requires
        free_of(w, k),
    ensures
        last_piece(s, k, split(s, k).last()),
        split(s, k).drop_last().contains(w) <==> stands_before_break(s, k, w),
    decreases s.len(),
{
    let parts = split(s, k);
    if s.len() == 0 {
        assert(s.skip(0) =~= parts.last());
        assert(parts.drop_last() =~= seq![]);
    } else {
        let front = s.drop_last();
        let c = s.last();
        let before = split(front, k);
        lemma_pieces(front, k, w);
        lemma_split_nonempty(front, k);
        let last = before.last();
        let from = front.len() - last.len();
        if k.has(c) {
            assert(parts.last() =~= s.skip(s.len() as int));
            assert(parts.drop_last() =~= before);
            assert(before =~= before.drop_last().push(last));
            if before.contains(w) {
                let n = choose|n: int| 0 <= n < before.len() && before[n] == w;
                if n < before.len() - 1 {
                    assert(before.drop_last()[n] == w);
                    let i = choose|i: int|
                        #[trigger] occurs_at(front, w, i) && (i == 0 || k.has(front[i - 1])) && i
                            + w.len() < front.len() && k.has(front[i + w.len()]);
                    assert(s.subrange(i, i + w.len()) =~= front.subrange(i, i + w.len()));
                    assert(occurs_at(s, w, i));
                } else {
                    assert(s.subrange(from, from + w.len()) =~= front.skip(from));
                    assert(occurs_at(s, w, from));
                    if from > 0 {
                        assert(s[from - 1] == front[from - 1]);
                    }
                    assert(s[from + w.len()] == c);
                }
            }
            if stands_before_break(s, k, w) {
                let i = choose|i: int|
                    #[trigger] occurs_at(s, w, i) && (i == 0 || k.has(s[i - 1])) && i + w.len()
                        < s.len() && k.has(s[i + w.len()]);
                assert(s.subrange(i, i + w.len()) =~= front.subrange(i, i + w.len()));
                if i + w.len() < front.len() {
                    assert(occurs_at(front, w, i));
                    let n = choose|n: int|
                        0 <= n < before.drop_last().len() && before.drop_last()[n] == w;
                    assert(before[n] == w);
                } else {
                    assert(front.skip(i) =~= w);
                    assert(last_piece(front, k, w));
                    lemma_last_piece(front, k, last, w);
                    assert(before[before.len() - 1] == w);
                }
            }
        } else {
            let t = last.push(c);
            assert(parts.last() == t);
            assert(parts.drop_last() =~= before.drop_last());
            assert(s.skip(s.len() - t.len()) =~= front.skip(from).push(c));
            assert(free_of(t, k));
            if t.len() < s.len() {
                assert(s[s.len() - t.len() - 1] == front[from - 1]);
            }
            if stands_before_break(front, k, w) {
                let i = choose|i: int|
                    #[trigger] occurs_at(front, w, i) && (i == 0 || k.has(front[i - 1])) && i
                        + w.len() < front.len() && k.has(front[i + w.len()]);
                assert(s.subrange(i, i + w.len()) =~= front.subrange(i, i + w.len()));
                assert(occurs_at(s, w, i));
            }
            if stands_before_break(s, k, w) {
                let i = choose|i: int|
                    #[trigger] occurs_at(s, w, i) && (i == 0 || k.has(s[i - 1])) && i + w.len()
                        < s.len() && k.has(s[i + w.len()]);
                assert(s.subrange(i, i + w.len()) =~= front.subrange(i, i + w.len()));
                assert(occurs_at(front, w, i));
            }
        }
    }
}

/// A text without a character of the class is a piece of another one exactly when it
/// stands there with such a character, or the end of the text, on either side.
pub proof fn pieces_stand_between_breaks(s: Seq<char>, k: CharClass, w: Seq<char>)
    requires
        free_of(w, k),
    ensures
        split(s, k).contains(w) <==> stands_between(s, k, w),
{
    let parts = split(s, k);
    lemma_pieces(s, k, w);
    lemma_split_nonempty(s, k);
    let last = parts.last();
    let from = s.len() - last.len();
    if parts.contains(w) {
        let n = choose|n: int| 0 <= n < parts.len() && parts[n] == w;
        if n < parts.len() - 1 {
            assert(parts.drop_last()[n] == w);
            let i = choose|i: int|
                #[trigger] occurs_at(s, w, i) && (i == 0 || k.has(s[i - 1])) && i + w.len()
                    < s.len() && k.has(s[i + w.len()]);
            assert(occurs_at(s, w, i));
        } else {
            assert(s.subrange(from, from + w.len()) =~= s.skip(from));
            assert(occurs_at(s, w, from));
        }
    }
    if stands_between(s, k, w) {
        let i = choose|i: int|
            #[trigger] occurs_at(s, w, i) && (i == 0 || k.has(s[i - 1])) && (i + w.len()
                == s.len() || k.has(s[i + w.len()]));
        if i + w.len() < s.len() {
            assert(stands_before_break(s, k, w));
            let n = choose|n: int| 0 <= n < parts.drop_last().len() && parts.drop_last()[n] == w;
            assert(parts[n] == w);
        } else {
            assert(s.skip(i) =~= s.subrange(i, i + w.len()));
            assert(last_piece(s, k, w));
            lemma_last_piece(s, k, last, w);
            assert(parts[parts.len() - 1] == w);
        }
    }
}

/// The last piece of a text is what stands behind the last character of the class in it,
/// the whole text where there is none.
pub proof fn the_last_piece_stands_behind_the_last_break(s: Seq<char>, k: CharClass)
    ensures
        split(s, k).len() > 0,
        free_of(split(s, k).last(), k),
        split(s, k).last() == s || exists|i: int|
            0 <= i < s.len() && k.has(#[trigger] s[i]) && s.skip(i + 1) == split(s, k).last(),
{
    lemma_split_nonempty(s, k);
    lemma_pieces(s, k, Seq::empty());
    let last = split(s, k).last();
    if last.len() < s.len() {
        assert(k.has(s[s.len() - last.len() - 1]));
    } else {
        assert(s.skip(0) =~= s);
    }
}

proof fn lemma_nonempty_add(a: Seq<Seq<char>>, b: Seq<Seq<char>>)
    ensures
        nonempty(a + b) == nonempty(a) + nonempty(b),
    decreases b.len(),
{
    if b.len() == 0 {
        assert(a + b =~= a);
        assert(nonempty(a) + nonempty(b) =~= nonempty(a));
    } else {
        lemma_nonempty_add(a, b.drop_last());
        assert((a + b).drop_last() =~= a + b.drop_last());
        assert((a + b).last() == b.last());
        assert(nonempty(a + b) =~= nonempty(a) + nonempty(b));
    }
}

/// The words of two texts with white space between them are those of the one and then
/// those of the other.
pub proof fn words_come_apart(s: Seq<char>, c: char, t: Seq<char>)
    requires
        is_space(c),
    ensures
        words(s.push(c) + t) == words(s) + words(t),
{
    pieces_come_apart(s, c, t, CharClass::Space);
    lemma_nonempty_add(split(s, CharClass::Space), split(t, CharClass::Space));
}

/// A text without white space is its own only word, unless it is empty.
pub proof fn a_text_without_spaces_is_one_word(t: Seq<char>)
    requires
        free_of(t, CharClass::Space),
    ensures
        words(t) == (if t.len() > 0 {
            seq![t]
        } else {
            seq![]
        }),
{
    a_text_without_breaks_is_one_piece(t, CharClass::Space);
    assert(seq![t] =~= Seq::<Seq<char>>::empty().push(t));
    lemma_nonempty_push(seq![], t);
    assert(seq![].push(t) =~= seq![t]);
}

} // verus!
