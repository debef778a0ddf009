//! Text as sequences of characters: searching, splitting, trimming, lines and
//! decimal numerals, each as a mathematical definition with the executable
//! function that computes it.

use crate::search::{first_where, lemma_first_where, lemma_first_where_unique};
use vstd::prelude::*;
use vstd::std_specs::iter::IteratorSpec;
use vstd::string::*;

verus! {

/// Being the character `c`.
pub open spec fn is_char(c: char) -> spec_fn(char) -> bool {
    |x: char| x == c
}

/// The position of the first `c` in `s`, or `s.len()` where `s` holds none.
pub open spec fn first_index(s: Seq<char>, c: char) -> int {
    first_where(s, is_char(c))
}

/// `first_index` lies within `0..=s.len()`, nothing before it is `c`, and
/// where it lies inside `s` it points at a `c`.
pub proof fn lemma_first_index(s: Seq<char>, c: char)
    ensures
        0 <= first_index(s, c) <= s.len(),
        forall|j: int| 0 <= j < first_index(s, c) ==> s[j] != c,
        first_index(s, c) < s.len() ==> s[first_index(s, c)] == c,
{
    lemma_first_where(s, is_char(c));
}

/// Any position that has no `c` before it and is either the end of `s` or a
/// `c` is the one that `first_index` names.
pub proof fn lemma_first_index_unique(s: Seq<char>, c: char, at: int)
    requires
        0 <= at <= s.len(),
        forall|j: int| 0 <= j < at ==> s[j] != c,
        at < s.len() ==> s[at] == c,
    ensures
        first_index(s, c) == at,
{
    lemma_first_where_unique(s, is_char(c), at);
}

/// The pieces of `s` between occurrences of `sep`: one more piece than there
/// are separators, so an empty text is one empty piece.
pub open spec fn split(s: Seq<char>, sep: char) -> Seq<Seq<char>>
    decreases s.len(),
{
    let at = first_index(s, sep);
    if 0 <= at < s.len() {
        seq![s.take(at)] + split(s.skip(at + 1), sep)
    } else {
        seq![s]
    }
}

/// The first piece of a split text ends at the first separator; the pieces
/// after it are those of the text behind that separator.
pub proof fn lemma_split(s: Seq<char>, sep: char)
    ensures
        split(s, sep).len() >= 1,
        first_index(s, sep) >= s.len() ==> split(s, sep) == seq![s],
        first_index(s, sep) < s.len() ==> split(s, sep) == seq![s.take(first_index(s, sep))]
            + split(s.skip(first_index(s, sep) + 1), sep),
{
    lemma_first_index(s, sep);
}

/// Whether `c` has the Unicode property `White_Space`.
pub open spec fn is_whitespace(c: char) -> bool {
    let u = c as u32;
    ||| 0x09 <= u <= 0x0D
    ||| u == 0x20
    ||| u == 0x85
    ||| u == 0xA0
    ||| u == 0x1680
    ||| 0x2000 <= u <= 0x200A
    ||| u == 0x2028
    ||| u == 0x2029
    ||| u == 0x202F
    ||| u == 0x205F
    ||| u == 0x3000
}

/// `s` without its leading whitespace.
pub open spec fn trim_start(s: Seq<char>) -> Seq<char>
    decreases s.len(),
{
    if s.len() > 0 && is_whitespace(s[0]) {
        trim_start(s.drop_first())
    } else {
        s
    }
}

/// `s` without its trailing whitespace.
pub open spec fn trim_end(s: Seq<char>) -> Seq<char>
    decreases s.len(),
{
    if s.len() > 0 && is_whitespace(s.last()) {
        trim_end(s.drop_last())
    } else {
        s
    }
}

/// `s` without leading and trailing whitespace.
pub open spec fn trim(s: Seq<char>) -> Seq<char> {
    trim_end(trim_start(s))
}

/// `s` without one carriage return at its end, if it has one there.
pub open spec fn strip_cr(s: Seq<char>) -> Seq<char> {
    if s.len() > 0 && s.last() == '\r' {
        s.drop_last()
    } else {
        s
    }
}

/// The lines of `s`. A line ends at a line feed; a carriage return directly
/// before that line feed belongs to the line ending. What follows the last
/// line feed is a line of its own unless it is empty, and keeps a carriage
/// return at its end.
pub open spec fn lines(s: Seq<char>) -> Seq<Seq<char>>
    decreases s.len(),
{
    if s.len() == 0 {
        Seq::empty()
    } else {
        let end = first_index(s, '\n');
        if 0 <= end < s.len() {
            seq![strip_cr(s.take(end))] + lines(s.skip(end + 1))
        } else {
            seq![s]
        }
    }
}

/// The text in which each of `lines` is followed by `ending`.
pub open spec fn join_lines(lines: Seq<Seq<char>>, ending: Seq<char>) -> Seq<char>
    decreases lines.len(),
{
    if lines.len() == 0 {
        Seq::empty()
    } else {
        lines[0] + ending + join_lines(lines.drop_first(), ending)
    }
}

/// The line ending that is a bare line feed.
pub open spec fn lf() -> Seq<char> {
    seq!['\n']
}

/// The line ending that is a carriage return and a line feed.
pub open spec fn crlf() -> Seq<char> {
    seq!['\r', '\n']
}

/// Writing one more line behind the others puts it, with its ending,
/// behind their text.
pub proof fn lemma_join_lines_push(lines: Seq<Seq<char>>, line: Seq<char>, ending: Seq<char>)
    ensures
        join_lines(lines.push(line), ending) == join_lines(lines, ending) + line + ending,
    decreases lines.len(),
{
    if lines.len() == 0 {
        assert(lines.push(line).drop_first() =~= lines);
        assert(join_lines(lines, ending) =~= Seq::<char>::empty());
    } else {
        lemma_join_lines_push(lines.drop_first(), line, ending);
        assert(lines.push(line).drop_first() =~= lines.drop_first().push(line));
    }
}

/// Lines written behind other lines put their text behind the text of the
/// others.
pub proof fn lemma_join_lines_add(first: Seq<Seq<char>>, second: Seq<Seq<char>>, ending: Seq<char>)
    ensures
        join_lines(first + second, ending) == join_lines(first, ending) + join_lines(
            second,
            ending,
        ),
    decreases first.len(),
{
    if first.len() > 0 {
        lemma_join_lines_add(first.drop_first(), second, ending);
        assert((first + second).drop_first() =~= first.drop_first() + second);
    }
}

/// Lines that are written one after the other, each with its line ending,
/// are read back as they were written, whatever follows them. This holds of
/// lines without a line feed in them; where the ending is a bare line feed,
/// a line may not end in a carriage return either, as that would be read as
/// part of the ending.
pub proof fn lemma_lines_of_joined(written: Seq<Seq<char>>, ending: Seq<char>, tail: Seq<char>)
    requires
        ending == lf() || ending == crlf(),
        forall|i: int| 0 <= i < written.len() ==> !(#[trigger] written[i]).contains('\n'),
        ending == lf() ==> forall|i: int|
            0 <= i < written.len() ==> (#[trigger] written[i]).len() == 0 || written[i].last()
                != '\r',
    ensures
        lines(join_lines(written, ending) + tail) == written + lines(tail),
    decreases written.len(),
{
    if written.len() > 0 {
        let head = written[0];
        let others = written.drop_first();
        let text = join_lines(written, ending) + tail;
        let end = head.len() + ending.len() - 1;
        lemma_first_index_unique(text, '\n', end);
        assert(strip_cr(text.take(end)) =~= head);
        assert(text.skip(end + 1) =~= join_lines(others, ending) + tail);
        lemma_lines_of_joined(others, ending, tail);
    }
}

/// The character that stands for the digit `d`.
pub open spec fn digit_char(d: nat) -> char
    recommends
        d < 10,
{
    if d == 0 {
        '0'
    } else if d == 1 {
        '1'
    } else if d == 2 {
        '2'
    } else if d == 3 {
        '3'
    } else if d == 4 {
        '4'
    } else if d == 5 {
        '5'
    } else if d == 6 {
        '6'
    } else if d == 7 {
        '7'
    } else if d == 8 {
        '8'
    } else {
        '9'
    }
}

/// The decimal numeral of `n`, without leading zeros.
pub open spec fn decimal(n: nat) -> Seq<char>
    decreases n,
{
    if n < 10 {
        seq![digit_char(n)]
    } else {
        decimal(n / 10).push(digit_char(n % 10))
    }
}

/// The texts that a sequence of string slices stands for.
pub open spec fn texts(slices: Seq<&str>) -> Seq<Seq<char>> {
    slices.map_values(|slice: &str| slice@)
}

/// The characters of `text`, in order.
pub fn chars_of(text: &str) -> (chars: Vec<char>)
    ensures
        chars@ == text@,
{
    let mut chars: Vec<char> = Vec::new();
    for c in it: text.chars()
        invariant
            chars@ == it.seq().take(it.index() as int),
    {
        chars.push(c);
    }
    chars
}

/// Whether `a` and `b` hold the same characters.
pub fn same_text(a: &str, b: &str) -> (same: bool)
    ensures
        same == (a@ == b@),
{
    let mut left = a.chars();
    let mut right = b.chars();
    let ghost mut seen: Seq<char> = Seq::empty();
    loop
        invariant
            a@ == seen + left.remaining(),
            b@ == seen + right.remaining(),
            left.obeys_prophetic_iter_laws(),
            right.obeys_prophetic_iter_laws(),
            left.decrease() is Some,
        decreases left.decrease()->0,
    {
        match (left.next(), right.next()) {
            (None, None) => {
                return true;
            },
            (Some(x), Some(y)) => {
                if x != y {
                    assert(b@[seen.len() as int] == y);
                    return false;
                }
                proof {
                    seen = seen.push(x);
                }
            },
            _ => {
                return false;
            },
        }
    }
}

/// Finds the first `c` in `chars[from..to]`; the result is `to` where there
/// is none.
pub(crate) fn find_char(chars: &[char], from: usize, to: usize, c: char) -> (at: usize)
    requires
        from <= to <= chars@.len(),
    ensures
        at == from + first_index(chars@.subrange(from as int, to as int), c),
        from <= at <= to,
{
    let mut at: usize = from;
    while at < to && chars[at] != c
        invariant
            from <= at <= to <= chars@.len(),
            forall|j: int| from <= j < at ==> chars@[j] != c,
        decreases to - at,
    {
        at += 1;
    }
    proof {
        lemma_first_index_unique(chars@.subrange(from as int, to as int), c, at - from);
    }
    at
}

/// Whether `c` is whitespace.
pub fn is_space(c: char) -> (space: bool)
    ensures
        space == is_whitespace(c),
{
    let u: u32 = c as u32;
    (0x09 <= u && u <= 0x0D) || u == 0x20 || u == 0x85 || u == 0xA0 || u == 0x1680 || (0x2000 <= u
        && u <= 0x200A) || u == 0x2028 || u == 0x2029 || u == 0x202F || u == 0x205F || u == 0x3000
}

/// The bounds of `chars[from..to]` without its leading and trailing
/// whitespace.
pub(crate) fn trim_bounds(chars: &[char], from: usize, to: usize) -> (bounds: (
    usize,
    usize,
))
    requires
        from <= to <= chars@.len(),
    ensures
        from <= bounds.0 <= bounds.1 <= to,
        chars@.subrange(bounds.0 as int, bounds.1 as int) == trim(
            chars@.subrange(from as int, to as int),
        ),
{
    let mut start: usize = from;
    while start < to && is_space(chars[start])
        invariant
            from <= start <= to <= chars@.len(),
            trim_start(chars@.subrange(from as int, to as int)) == trim_start(
                chars@.subrange(start as int, to as int),
            ),
        decreases to - start,
    {
        assert(chars@.subrange(start as int, to as int).drop_first() =~= chars@.subrange(
            start + 1,
            to as int,
        ));
        start += 1;
    }
    let mut end: usize = to;
    while start < end && is_space(chars[end - 1])
        invariant
            start <= end <= to <= chars@.len(),
            trim_end(chars@.subrange(start as int, to as int)) == trim_end(
                chars@.subrange(start as int, end as int),
            ),
        decreases end - start,
    {
        assert(chars@.subrange(start as int, end as int).drop_last() =~= chars@.subrange(
            start as int,
            end - 1,
        ));
        end -= 1;
    }
    (start, end)
}

/// The one-character text of the digit `d`.
fn digit_text(d: usize) -> (text: &'static str)
    requires
        d < 10,
    ensures
        text@ == seq![digit_char(d as nat)],
{
    proof {
        reveal_strlit("0");
        reveal_strlit("1");
        reveal_strlit("2");
        reveal_strlit("3");
        reveal_strlit("4");
        reveal_strlit("5");
        reveal_strlit("6");
        reveal_strlit("7");
        reveal_strlit("8");
        reveal_strlit("9");
    }
    let text = if d == 0 {
        "0"
    } else if d == 1 {
        "1"
    } else if d == 2 {
        "2"
    } else if d == 3 {
        "3"
    } else if d == 4 {
        "4"
    } else if d == 5 {
        "5"
    } else if d == 6 {
        "6"
    } else if d == 7 {
        "7"
    } else if d == 8 {
        "8"
    } else {
        "9"
    };
    text
}

/// Appends the decimal numeral of `n` to `text`.
pub fn push_decimal(text: &mut String, n: usize)
    ensures
        final(text)@ == old(text)@ + decimal(n as nat),
    decreases n,
{
    if n >= 10 {
        push_decimal(text, n / 10);
    }
    text.append(digit_text(n % 10));
}

/// Splits `raw` into its lines.
pub fn lines_of<'a>(raw: &'a str) -> (found: Vec<&'a str>)
    ensures
        texts(found@) == lines(raw@),
{
    let chars = chars_of(raw);
    let n: usize = chars.len();
    let mut found: Vec<&'a str> = Vec::new();
    let mut at: usize = 0;
    assert(raw@.skip(0) =~= raw@);
    while at < n
        invariant
            at <= n,
            n == chars@.len(),
            chars@ == raw@,
            lines(raw@) == texts(found@) + lines(raw@.skip(at as int)),
        decreases n - at,
    {
        let ghost rest = raw@.skip(at as int);
        let end = find_char(chars.as_slice(), at, n, '\n');
        if end == n {
            found.push(raw.substring_char(at, n));
            at = n;
        } else {
            let stop: usize = if end > at && chars[end - 1] == '\r' {
                end - 1
            } else {
                end
            };
            found.push(raw.substring_char(at, stop));
            assert(strip_cr(rest.take(end - at)) =~= raw@.subrange(at as int, stop as int));
            assert(rest.skip(end - at + 1) =~= raw@.skip(end + 1));
            at = end + 1;
        }
    }
    found
}

} // verus!
