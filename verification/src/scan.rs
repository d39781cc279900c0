//! Reading a text by runs of characters, fixed tokens and decimal numbers.

use vstd::prelude::*;

verus! {

/// A set of characters that a run in a report is made of.
#[derive(Clone, Copy, Debug, PartialEq, Eq)]
pub enum CharClass {
    /// A space or a tab.
    Space,
    /// An ASCII letter or an underscore: what an issue code is made of.
    Code,
    /// An ASCII decimal digit.
    Digit,
    /// Anything but a colon or a newline: what a file name is made of.
    FileName,
    /// Anything but a newline.
    Line,
}

impl CharClass {
    /// Whether `c` belongs to the class.
    pub open spec fn contains(self, c: char) -> bool {
        match self {
            CharClass::Space => c == ' ' || c == '\t',
            CharClass::Code => ('a' <= c && c <= 'z') || ('A' <= c && c <= 'Z') || c == '_',
            CharClass::Digit => '0' <= c && c <= '9',
            CharClass::FileName => c != ':' && c != '\n',
            CharClass::Line => c != '\n',
        }
    }

    /// Whether `c` belongs to the class.
    pub fn has(self, c: char) -> (b: bool)
        ensures
            b == self.contains(c),
    {
        match self {
            CharClass::Space => c == ' ' || c == '\t',
            CharClass::Code => (c >= 'a' && c <= 'z') || (c >= 'A' && c <= 'Z') || c == '_',
            CharClass::Digit => c >= '0' && c <= '9',
            CharClass::FileName => c != ':' && c != '\n',
            CharClass::Line => c != '\n',
        }
    }
}

/// Where the longest run of `class` characters that starts at `from` ends:
/// the first index at or after `from` that holds no character of the class,
/// or the length of the text. An index outside the text starts an empty run.
pub open spec fn run_end(text: Seq<char>, from: int, class: CharClass) -> int
    decreases text.len() - from,
{
    if 0 <= from < text.len() && class.contains(text[from]) {
        run_end(text, from + 1, class)
    } else {
        from
    }
}

/// A run ends inside the text, at or after its start.
pub proof fn lemma_run_end_bounds(text: Seq<char>, from: int, class: CharClass)
    requires
        0 <= from <= text.len(),
    ensures
        from <= run_end(text, from, class) <= text.len(),
    decreases text.len() - from,
{
    if from < text.len() && class.contains(text[from]) {
        lemma_run_end_bounds(text, from + 1, class);
    }
}

/// What makes `end` the end of the run from `from`: the class holds every
/// character between them, and none at `end`.
pub proof fn lemma_run_end_is(text: Seq<char>, from: int, end: int, class: CharClass)
    requires
        0 <= from <= end <= text.len(),
        forall|i: int| from <= i < end ==> class.contains(#[trigger] text[i]),
        end < text.len() ==> !class.contains(text[end]),
    ensures
        run_end(text, from, class) == end,
    decreases end - from,
{
    if from < end {
        lemma_run_end_is(text, from + 1, end, class);
    }
}

/// The class holds every character of a run, and none just after it.
pub proof fn lemma_run_end_holds(text: Seq<char>, from: int, class: CharClass)
    requires
        0 <= from <= text.len(),
    ensures
        forall|i: int|
            from <= i < run_end(text, from, class) ==> class.contains(#[trigger] text[i]),
        run_end(text, from, class) < text.len() ==> !class.contains(
            text[run_end(text, from, class)],
        ),
    decreases text.len() - from,
{
    if from < text.len() && class.contains(text[from]) {
        lemma_run_end_holds(text, from + 1, class);
    }
}

/// The end of the run of `class` characters that starts at `from`.
pub fn scan_run(text: &[char], from: usize, class: CharClass) -> (end: usize)
    ensures
        end == run_end(text@, from as int, class),
        from <= end,
        from <= text.len() ==> end <= text.len(),
{
    let mut end: usize = from;
    while end < text.len() && class.has(text[end])
        invariant
            from <= end,
            end <= text.len() || end == from,
            run_end(text@, from as int, class) == run_end(text@, end as int, class),
        decreases text.len() - end,
    {
        end = end + 1;
    }
    end
}

/// Whether `token` stands in `text` at index `at`.
pub open spec fn has_token(text: Seq<char>, at: int, token: Seq<char>) -> bool {
    0 <= at && at + token.len() <= text.len() && text.subrange(at, at + token.len()) == token
}

/// The index just after `token`, if it stands in `text` at index `at`.
pub fn token_at(text: &[char], at: usize, token: &str) -> (end: Option<usize>)
    ensures
        match end {
            Some(end) => has_token(text@, at as int, token@) && end == at + token@.len(),
            None => !has_token(text@, at as int, token@),
        },
{
    if at > text.len() {
        return None;
    }
    let mut next: usize = at;
    for c in it: token.chars()
        invariant
            at <= next <= text.len(),
            next == at + it.index(),
            text@.subrange(at as int, next as int) == it.seq().take(it.index() as int),
            it.seq() == token@,
    {
        if next >= text.len() || text[next] != c {
            return None;
        }
        next = next + 1;
    }
    assert(token@.take(token@.len() as int) =~= token@);
    Some(next)
}

/// The number that a run of decimal digits writes; 0 for the empty run.
pub open spec fn digits_value(digits: Seq<char>) -> nat
    decreases digits.len(),
{
    if digits.len() == 0 {
        0
    } else {
        (digits_value(digits.drop_last()) * 10 + (digits.last() as int - '0' as int)) as nat
    }
}

/// A number read from a text, and the index just after it.
pub struct Number {
    pub value: int,
    pub end: int,
}

/// The signed decimal number that stands in `text` at index `at`: an optional
/// `+` or `-`, then one digit or more, as far as digits go. There is none if
/// no digit stands there, or if the value is not a 32-bit signed integer.
pub open spec fn number_at(text: Seq<char>, at: int) -> Option<Number> {
    let signed = 0 <= at < text.len() && (text[at] == '+' || text[at] == '-');
    let first = if signed {
        at + 1
    } else {
        at
    };
    let end = run_end(text, first, CharClass::Digit);
    let magnitude = digits_value(text.subrange(first, end));
    let value = if signed && text[at] == '-' {
        -magnitude
    } else {
        magnitude as int
    };
    if first < end && i32::MIN <= value <= i32::MAX {
        Some(Number { value, end })
    } else {
        None
    }
}

/// More digits never write a smaller number.
pub proof fn lemma_digits_value_grows(text: Seq<char>, first: int, mid: int, end: int)
    requires
        0 <= first <= mid <= end <= text.len(),
        forall|i: int| first <= i < end ==> CharClass::Digit.contains(#[trigger] text[i]),
    ensures
        digits_value(text.subrange(first, mid)) <= digits_value(text.subrange(first, end)),
    decreases end - mid,
{
    if mid < end {
        lemma_digits_value_grows(text, first, mid, end - 1);
        assert(text.subrange(first, end).drop_last() =~= text.subrange(first, end - 1));
    }
}

/// The number that stands in `text` at index `at`, and the index just after
/// it.
#[verifier::loop_isolation(false)]
pub fn read_number(text: &[char], at: usize) -> (number: Option<(i32, usize)>)
    ensures
        match number {
            Some((value, end)) => number_at(text@, at as int) == Some(
                Number { value: value as int, end: end as int },
            ) && at < end <= text.len(),
            None => number_at(text@, at as int) is None,
        },
{
    let signed = at < text.len() && (text[at] == '+' || text[at] == '-');
    let negative = signed && text[at] == '-';
    let first: usize = if signed {
        at + 1
    } else {
        at
    };
    let end = scan_run(text, first, CharClass::Digit);
    if end == first {
        return None;
    }
    proof {
        lemma_run_end_holds(text@, first as int, CharClass::Digit);
    }
    let limit: i64 = 0x8000_0000;
    let mut magnitude: i64 = 0;
    let mut next: usize = first;
    while next < end
        invariant
            first <= next <= end,
            0 <= magnitude <= limit,
            magnitude == digits_value(text@.subrange(first as int, next as int)),
        decreases end - next,
    {
        let digit: i64 = (text[next] as u32 - '0' as u32) as i64;
        assert(text@.subrange(first as int, next + 1).drop_last() =~= text@.subrange(
            first as int,
            next as int,
        ));
        magnitude = magnitude * 10 + digit;
        next = next + 1;
        if magnitude > limit {
            proof {
                lemma_digits_value_grows(text@, first as int, next as int, end as int);
            }
            return None;
        }
    }
    if negative {
        Some(((-magnitude) as i32, end))
    } else if magnitude < limit {
        Some((magnitude as i32, end))
    } else {
        None
    }
}

} // verus!
