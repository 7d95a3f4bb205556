//! What holds of the functions on text, whatever the text is.

use vstd::prelude::*;

use crate::text;
use crate::text::CharClass;
use crate::tools::edit;
use crate::tools::edit::NewlineStyle;

verus! {

// ---------------------------------------------------------------------------
// Numbers
// ---------------------------------------------------------------------------

proof fn lemma_decimal(n: nat)
    ensures
        text::decimal(n).len() > 0,
        text::all_digits(text::decimal(n)),
        text::digits_value(text::decimal(n)) == n,
    decreases n,
{
    if n < 10 {
        let s = seq![text::digit_char(n)];
        assert(s.drop_last() =~= seq![]);
        assert(text::digits_value(s.drop_last()) == 0);
        assert(text::is_digit(s[0]));
    } else {
        lemma_decimal(n / 10);
        let before = text::decimal(n / 10);
        let c = text::digit_char(n % 10);
        assert(text::is_digit(c));
        assert(before.push(c).drop_last() =~= before);
        assert forall|i: int| 0 <= i < before.push(c).len() implies text::is_digit(
            #[trigger] before.push(c)[i],
        ) by {
            if i < before.len() {
                assert(text::is_digit(before[i]));
            }
        }
    }
}

/// A number that is written out is read back; its notation is made of digits.
pub proof fn numbers_are_read_back(n: nat, max: nat)
    requires
        n <= max,
    ensures
        text::parse_unsigned(text::decimal(n), max) == Some(n),
        text::decimal(n).len() > 0,
        text::all_digits(text::decimal(n)),
{
    lemma_decimal(n);
    assert(text::is_digit(text::decimal(n)[0]));
}

/// What is not a digit, save for a plus sign in front, and what is too large, is not read
/// as a number.
pub proof fn other_texts_are_no_numbers(s: Seq<char>, max: nat)
    ensures
        s.len() == 0 ==> text::parse_unsigned(s, max) is None,
        (exists|i: int| 0 < i < s.len() && !(0x30 <= #[trigger] s[i] as u32 <= 0x39))
            ==> text::parse_unsigned(s, max) is None,
        s.len() > 0 && s[0] != '+' && !(0x30 <= s[0] as u32 <= 0x39) ==> text::parse_unsigned(s, max)
            is None,
        text::parse_unsigned(s, max) matches Some(n) ==> n <= max,
{
    let ds = text::unsigned_digits(s);
    if exists|i: int| 0 < i < s.len() && !(0x30 <= #[trigger] s[i] as u32 <= 0x39) {
        let i = choose|i: int| 0 < i < s.len() && !(0x30 <= #[trigger] s[i] as u32 <= 0x39);
        if text::all_digits(ds) {
            if s[0] == '+' {
                assert(text::is_digit(ds[i - 1]));
            } else {
                assert(text::is_digit(ds[i]));
            }
        }
    }
    if s.len() > 0 && s[0] != '+' && text::all_digits(ds) {
        assert(text::is_digit(ds[0]));
    }
}

// ---------------------------------------------------------------------------
// Searching and replacing
// ---------------------------------------------------------------------------

/// Where a text is found first, it is replaced and counted there, and the search goes on
/// behind it.
pub proof fn the_first_match_is_replaced(
    a: Seq<char>,
    p: Seq<char>,
    b: Seq<char>,
    q: Seq<char>,
)
    requires
        p.len() > 0,
        forall|i: int| 0 <= i < a.len() ==> !#[trigger] text::occurs_at(a + p + b, p, i),
    ensures
        text::find(a + p + b, p) == Some(a.len() as int),
        text::replace(a + p + b, p, q) == a + q + text::replace(b, p, q),
        text::replace_first(a + p + b, p, q) == a + q + b,
        text::count(a + p + b, p) == 1 + text::count(b, p),
{
    let s = a + p + b;
    let n = a.len() as int;
    text::lemma_find_from(s, p, 0);
    assert(s.subrange(n, n + p.len()) =~= p);
    assert(text::occurs_at(s, p, n));
    let i = text::find(s, p)->Some_0;
    assert(i == n) by {
        if i < n {
            assert(!text::occurs_at(s, p, i));
        }
    }
    assert(s.take(n) =~= a);
    assert(s.skip(n + p.len()) =~= b);
}

/// Where a text is not found, nothing is replaced or counted.
pub proof fn without_a_match_nothing_is_replaced(s: Seq<char>, p: Seq<char>, q: Seq<char>)
    requires
        forall|i: int| !#[trigger] text::occurs_at(s, p, i),
    ensures
        text::find(s, p) is None,
        text::replace(s, p, q) == s,
        text::replace_first(s, p, q) == s,
        text::count(s, p) == 0,
        !text::contains(s, p),
{
    text::lemma_find_from(s, p, 0);
}

/// A text that stands at one place only is counted once.
pub proof fn a_single_match_is_counted_once(a: Seq<char>, p: Seq<char>, b: Seq<char>)
    requires
        p.len() > 0,
        forall|i: int| #[trigger] text::occurs_at(a + p + b, p, i) ==> i == a.len(),
    ensures
        text::count(a + p + b, p) == 1,
{
    let s = a + p + b;
    the_first_match_is_replaced(a, p, b, seq![]);
    assert forall|i: int| !#[trigger] text::occurs_at(b, p, i) by {
        if text::occurs_at(b, p, i) {
            let k = a.len() + p.len() + i;
            assert(s.subrange(k, k + p.len()) =~= b.subrange(i, i + p.len()));
            assert(text::occurs_at(s, p, k));
        }
    }
    without_a_match_nothing_is_replaced(b, p, seq![]);
}

/// A text that stands at two places that do not overlap is counted more than once.
pub proof fn two_matches_are_both_counted(
    a: Seq<char>,
    p: Seq<char>,
    b: Seq<char>,
    c: Seq<char>,
)
    requires
        p.len() > 0,
    ensures
        text::count(a + p + b + p + c, p) > 1,
{
    let s = a + p + b + p + c;
    let n = a.len() as int;
    let m = a.len() + p.len() + b.len() as int;
    assert(s.subrange(n, n + p.len()) =~= p);
    assert(s.subrange(m, m + p.len()) =~= p);
    assert(text::occurs_at(s, p, n));
    assert(text::occurs_at(s, p, m));
    text::lemma_find_from(s, p, 0);
    let i = text::find(s, p)->Some_0;
    assert(i <= n);
    let rest = s.skip(i + p.len());
    let k = m - i - p.len();
    assert(rest.subrange(k, k + p.len()) =~= s.subrange(m, m + p.len()));
    assert(text::occurs_at(rest, p, k));
    text::lemma_find_from(rest, p, 0);
    reveal_with_fuel(text::count, 2);
}

// ---------------------------------------------------------------------------
// White space
// ---------------------------------------------------------------------------

/// Whether a text is white space.
pub open spec fn blank(s: Seq<char>) -> bool {
    forall|i: int| 0 <= i < s.len() ==> text::is_space(#[trigger] s[i])
}

/// Whether a text neither begins nor ends with white space.
pub open spec fn tight(s: Seq<char>) -> bool {
    s.len() > 0 ==> !text::is_space(s[0]) && !text::is_space(s.last())
}

proof fn lemma_trim_front(l: Seq<char>, s: Seq<char>)
    requires
        blank(l),
        s.len() > 0 ==> !text::is_space(s[0]),
    ensures
        text::trim_start(l + s, CharClass::Space) == s,
    decreases l.len(),
{
    let whole = l + s;
    if l.len() == 0 {
        assert(whole =~= s);
    } else {
        assert(text::is_space(l[0]));
        assert forall|i: int| 0 <= i < l.skip(1).len() implies text::is_space(
            #[trigger] l.skip(1)[i],
        ) by {
            assert(text::is_space(l[i + 1]));
        }
        lemma_trim_front(l.skip(1), s);
        assert(whole.skip(1) =~= l.skip(1) + s);
    }
}

proof fn lemma_trim_back(s: Seq<char>, r: Seq<char>)
    requires
        blank(r),
        s.len() > 0 ==> !text::is_space(s.last()),
    ensures
        text::trim_end(s + r, CharClass::Space) == s,
    decreases r.len(),
{
    let whole = s + r;
    if r.len() == 0 {
        assert(whole =~= s);
    } else {
        assert(text::is_space(r[r.len() - 1]));
        assert forall|i: int| 0 <= i < r.drop_last().len() implies text::is_space(
            #[trigger] r.drop_last()[i],
        ) by {
            assert(text::is_space(r[i]));
        }
        lemma_trim_back(s, r.drop_last());
        assert(whole.drop_last() =~= s + r.drop_last());
    }
}

/// Trimming takes away the white space at both ends and nothing else.
pub proof fn trimming_takes_the_white_space_at_the_ends(
    l: Seq<char>,
    s: Seq<char>,
    r: Seq<char>,
)
    requires
        blank(l),
        blank(r),
        tight(s),
    ensures
        text::trimmed(l + s + r) == s,
{
    if s.len() == 0 {
        let all = l + r;
        assert forall|i: int| 0 <= i < all.len() implies text::is_space(#[trigger] all[i]) by {
            if i < l.len() {
                assert(text::is_space(l[i]));
            } else {
                assert(text::is_space(r[i - l.len()]));
            }
        }
        lemma_trim_front(all, s);
        assert(all + s =~= l + s + r);
        lemma_trim_back(s, seq![]);
        assert(s + seq![] =~= s);
    } else {
        lemma_trim_front(l, s + r);
        assert((s + r)[0] == s[0]);
        assert(l + (s + r) =~= l + s + r);
        lemma_trim_back(s, r);
    }
}

// ---------------------------------------------------------------------------
// Lines
// ---------------------------------------------------------------------------

/// The lines, each with its end.
pub open spec fn with_ends(parts: Seq<Seq<char>>, end: Seq<char>) -> Seq<Seq<char>> {
    parts.map_values(|p: Seq<char>| p + end)
}

pub proof fn lemma_concat_add(a: Seq<Seq<char>>, b: Seq<Seq<char>>)
    ensures
        text::concat(a + b) == text::concat(a) + text::concat(b),
    decreases b.len(),
{
    if b.len() == 0 {
        assert(a + b =~= a);
        assert(text::concat(a) + text::concat(b) =~= text::concat(a));
    } else {
        lemma_concat_add(a, b.drop_last());
        assert((a + b).drop_last() =~= a + b.drop_last());
        assert((a + b).last() == b.last());
        assert(text::concat(a + b) =~= text::concat(a) + text::concat(b));
    }
}

proof fn lemma_split_ended(parts: Seq<Seq<char>>, end: Seq<char>, last: Seq<char>)
    requires
        forall|i: int| 0 <= i < parts.len() ==> text::one_line(#[trigger] parts[i]),
        end == seq!['\n'] || end == seq!['\r', '\n'],
        text::free_of(last, CharClass::Just('\n')),
    ensures
        text::split(text::concat(with_ends(parts, end)) + last, CharClass::Just('\n'))
            == parts.map_values(|p: Seq<char>| p + end.drop_last()).push(last),
    decreases parts.len(),
{
    let k = CharClass::Just('\n');
    if parts.len() == 0 {
        assert(with_ends(parts, end) =~= seq![]);
        assert(text::concat(with_ends(parts, end)) + last =~= last);
        text::a_text_without_breaks_is_one_piece(last, k);
        assert(parts.map_values(|p: Seq<char>| p + end.drop_last()).push(last) =~= seq![last]);
    } else {
        let front = parts.drop_last();
        let line = parts.last();
        assert(text::one_line(parts[parts.len() - 1]));
        assert forall|i: int| 0 <= i < front.len() implies text::one_line(#[trigger] front[i]) by {
            assert(text::one_line(parts[i]));
        }
        let piece = line + end.drop_last();
        let first = text::concat(with_ends(front, end));
        assert(with_ends(parts, end).drop_last() =~= with_ends(front, end));
        assert(with_ends(parts, end).last() == line + end);
        assert(text::free_of(piece, k));
        lemma_split_ended(front, end, piece);
        text::pieces_come_apart(first + piece, '\n', last, k);
        text::a_text_without_breaks_is_one_piece(last, k);
        assert(text::concat(with_ends(parts, end)) + last =~= (first + piece).push('\n') + last);
        assert(parts.map_values(|p: Seq<char>| p + end.drop_last()).push(last)
            =~= front.map_values(|p: Seq<char>| p + end.drop_last()).push(piece) + seq![last]);
    }
}

/// A text is made of its lines: lines that are put together, each with a line feed or a
/// carriage return and a line feed behind it, come apart again, with their ends and
/// without them. A last line without an end is one of them.
pub proof fn lines_come_apart(parts: Seq<Seq<char>>, end: Seq<char>, last: Seq<char>)
    requires
        forall|i: int| 0 <= i < parts.len() ==> text::one_line(#[trigger] parts[i]),
        end == seq!['\n'] || end == seq!['\r', '\n'],
        text::one_line(last),
    ensures
        ({
            let s = text::concat(with_ends(parts, end));
            &&& text::lines(s) == parts
            &&& text::full_lines(s) == with_ends(parts, end)
            &&& last.len() > 0 ==> text::lines(s + last) == parts.push(last)
            &&& last.len() > 0 ==> text::full_lines(s + last) == with_ends(parts, end).push(last)
        }),
{
    let s = text::concat(with_ends(parts, end));
    let k = CharClass::Just('\n');
    let cut = parts.map_values(|p: Seq<char>| p + end.drop_last());
    assert(text::free_of(last, k));
    lemma_split_ended(parts, end, last);
    lemma_split_ended(parts, end, seq![]);
    assert(s + seq![] =~= s);
    assert(cut.push(last).drop_last() =~= cut);
    assert(cut.push(Seq::<char>::empty()).drop_last() =~= cut);
    let bare = cut.map_values(|p: Seq<char>| text::without_cr(p));
    assert forall|i: int| 0 <= i < parts.len() implies bare[i] == parts[i] by {
        assert(text::one_line(parts[i]));
        let p = parts[i] + end.drop_last();
        if end == seq!['\n'] {
            assert(p =~= parts[i]);
            if p.len() > 0 {
                assert(p.last() == parts[i][p.len() - 1]);
            }
        } else {
            assert(p.last() == '\r');
            assert(p.drop_last() =~= parts[i]);
        }
    }
    assert(bare =~= parts);
    let full = cut.map_values(|p: Seq<char>| p.push('\n'));
    assert forall|i: int| 0 <= i < parts.len() implies full[i] == with_ends(parts, end)[i] by {
        assert((parts[i] + end.drop_last()).push('\n') =~= parts[i] + end);
    }
    assert(full =~= with_ends(parts, end));
}

// ---------------------------------------------------------------------------
// Line ends
// ---------------------------------------------------------------------------

proof fn lemma_replace_ends(parts: Seq<Seq<char>>, p: Seq<char>, q: Seq<char>)
    requires
        p.len() > 0,
        forall|i: int, j: int|
            0 <= i < parts.len() && 0 <= j < parts[i].len() ==> #[trigger] parts[i][j] != p[0],
        p == seq!['\n'] || p == seq!['\r', '\n'],
    ensures
        text::replace(text::concat(with_ends(parts, p)), p, q) == text::concat(
            with_ends(parts, q),
        ),
    decreases parts.len(),
{
    if parts.len() == 0 {
        assert(with_ends(parts, p) =~= seq![]);
        assert(with_ends(parts, q) =~= seq![]);
        let s = text::concat(with_ends(parts, p));
        assert(s =~= seq![]);
        without_a_match_nothing_is_replaced(s, p, q);
    } else {
        let a = parts[0];
        let rest = parts.skip(1);
        assert forall|i: int, j: int| 0 <= i < rest.len() && 0 <= j < rest[i].len() implies
            #[trigger] rest[i][j] != p[0] by {
            assert(parts[i + 1][j] != p[0]);
        }
        lemma_replace_ends(rest, p, q);
        let b = text::concat(with_ends(rest, p));
        let d = text::concat(with_ends(rest, q));
        assert(with_ends(parts, p) =~= seq![a + p] + with_ends(rest, p));
        assert(with_ends(parts, q) =~= seq![a + q] + with_ends(rest, q));
        lemma_concat_add(seq![a + p], with_ends(rest, p));
        lemma_concat_add(seq![a + q], with_ends(rest, q));
        lemma_concat_one(a + p);
        lemma_concat_one(a + q);
        assert forall|i: int| 0 <= i < a.len() implies !#[trigger] text::occurs_at(
            a + p + b,
            p,
            i,
        ) by {
            if text::occurs_at(a + p + b, p, i) {
                assert((a + p + b).subrange(i, i + p.len())[0] == a[i]);
                assert(parts[0][i] != p[0]);
            }
        }
        the_first_match_is_replaced(a, p, b, q);
    }
}

pub proof fn lemma_concat_one(s: Seq<char>)
    ensures
        text::concat(seq![s]) == s,
{
    assert(seq![s].drop_last() =~= seq![]);
    assert(text::concat(seq![]) + s =~= s);
}

proof fn lemma_no_return(s: Seq<char>)
    requires
        forall|i: int| 0 <= i < s.len() ==> #[trigger] s[i] != '\r',
    ensures
        text::replace(s, seq!['\r', '\n'], seq!['\n']) == s,
        !text::contains(s, seq!['\r', '\n']),
{
    let p = seq!['\r', '\n'];
    assert forall|i: int| !#[trigger] text::occurs_at(s, p, i) by {
        if text::occurs_at(s, p, i) {
            assert(s.subrange(i, i + 2)[0] == s[i]);
        }
    }
    without_a_match_nothing_is_replaced(s, p, seq!['\n']);
}

proof fn lemma_no_return_in(parts: Seq<Seq<char>>)
    requires
        forall|i: int| 0 <= i < parts.len() ==> text::one_line(#[trigger] parts[i]),
    ensures
        forall|i: int|
            0 <= i < text::concat(with_ends(parts, seq!['\n'])).len() ==> #[trigger] text::concat(
                with_ends(parts, seq!['\n']),
            )[i] != '\r',
    decreases parts.len(),
{
    let s = text::concat(with_ends(parts, seq!['\n']));
    if parts.len() > 0 {
        let front = parts.drop_last();
        assert forall|i: int| 0 <= i < front.len() implies text::one_line(#[trigger] front[i]) by {
            assert(text::one_line(parts[i]));
        }
        lemma_no_return_in(front);
        assert(with_ends(parts, seq!['\n']).drop_last() =~= with_ends(front, seq!['\n']));
        let before = text::concat(with_ends(front, seq!['\n']));
        let line = parts[parts.len() - 1];
        assert(text::one_line(line));
        assert(s == before + (line + seq!['\n']));
        assert forall|i: int| 0 <= i < s.len() implies #[trigger] s[i] != '\r' by {
            if i < before.len() {
                assert(before[i] != '\r');
            } else if i < before.len() + line.len() {
                assert(line[i - before.len()] != '\r');
            }
        }
    }
}

/// A text is brought to the line ends of a file, whichever ends it has itself; a text that
/// has them already stays as it is.
pub proof fn line_ends_become_those_of_the_file(lines: Seq<Seq<char>>)
    requires
        forall|i: int| 0 <= i < lines.len() ==> text::one_line(#[trigger] lines[i]),
    ensures
        ({
            let unix = text::concat(with_ends(lines, seq!['\n']));
            let dos = text::concat(with_ends(lines, seq!['\r', '\n']));
            &&& edit::with_newlines(unix, NewlineStyle::Lf) == unix
            &&& edit::with_newlines(dos, NewlineStyle::Lf) == unix
            &&& edit::with_newlines(unix, NewlineStyle::Crlf) == dos
            &&& edit::with_newlines(dos, NewlineStyle::Crlf) == dos
            &&& edit::newline_of(unix) == NewlineStyle::Lf
            &&& lines.len() > 0 ==> edit::newline_of(dos) == NewlineStyle::Crlf
        }),
{
    let unix = text::concat(with_ends(lines, seq!['\n']));
    let dos = text::concat(with_ends(lines, seq!['\r', '\n']));
    reveal_strlit("\r\n");
    reveal_strlit("\n");
    assert("\r\n"@ =~= seq!['\r', '\n']);
    assert("\n"@ =~= seq!['\n']);
    assert forall|i: int, j: int| 0 <= i < lines.len() && 0 <= j < lines[i].len() implies
        #[trigger] lines[i][j] != '\n' && lines[i][j] != '\r' by {
        assert(text::one_line(lines[i]));
    }
    lemma_replace_ends(lines, seq!['\n'], seq!['\r', '\n']);
    lemma_replace_ends(lines, seq!['\r', '\n'], seq!['\n']);
    lemma_no_return_in(lines);
    lemma_no_return(unix);
    if lines.len() > 0 {
        let ends = with_ends(lines, seq!['\r', '\n']);
        let before = text::concat(ends.drop_last());
        let line = lines.last();
        assert(ends.last() == line + seq!['\r', '\n']);
        let n = before.len() + line.len() as int;
        assert(dos == before + (line + seq!['\r', '\n']));
        assert(dos.subrange(n, n + 2) =~= seq!['\r', '\n']);
        assert(text::occurs_at(dos, seq!['\r', '\n'], n));
    }
}

/// The pieces of a text that are joined again by what it was cut at give the text.
pub proof fn joining_undoes_cutting(s: Seq<char>, c: char)
    ensures
        text::join(text::split(s, CharClass::Just(c)), seq![c]) == s,
    decreases s.len(),
{
    let k = CharClass::Just(c);
    let parts = text::split(s, k);
    if s.len() == 0 {
        assert(parts[0] =~= s);
    } else {
        let front = s.drop_last();
        let before = text::split(front, k);
        joining_undoes_cutting(front, c);
        text::lemma_split_nonempty(front, k);
        assert(front.push(s.last()) =~= s);
        if s.last() == c {
            assert(parts.drop_last() =~= before);
            assert(text::join(before, seq![c]) + seq![c] + Seq::<char>::empty() =~= s);
        } else {
            let last = before.last().push(s.last());
            assert(parts.drop_last() =~= before.drop_last());
            if before.len() > 1 {
                let head = text::join(before.drop_last(), seq![c]) + seq![c];
                assert(head + last =~= (head + before.last()).push(s.last()));
            }
        }
    }
}

} // verus!
