//! What a user types at the control client's prompt, read as a selection.
//!
//! A line means something if it holds exactly one word, white space around
//! it left aside: `q` to quit, or the number of a station, written in
//! decimal digits with or without a plus sign before them. White space is
//! what Unicode calls so, each character in its UTF-8 form.

use vstd::prelude::*;

verus! {

/// What a line typed at the prompt asks for.
#[derive(Clone, Copy, Debug, PartialEq, Eq, Structural)]
pub enum Selection {
    /// The user is done.
    Quit,
    /// The station of this number, which the server has.
    Station(u16),
    /// Nothing that can be done: ask again.
    Invalid,
}

/// Whether `byte` is a white space character of one byte: a blank, or one
/// of tab, line feed, vertical tab, form feed and carriage return.
pub open spec fn is_ascii_space(byte: u8) -> bool {
    byte == 32 || 9 <= byte <= 13
}

/// Whether the two bytes are a white space character: next line (U+0085)
/// or no-break space (U+00A0).
pub open spec fn is_space_of_two(first: u8, second: u8) -> bool {
    first == 0xC2 && (second == 0x85 || second == 0xA0)
}

/// Whether the three bytes are a white space character: U+1680, one of
/// U+2000 to U+200A, U+2028, U+2029, U+202F, U+205F or U+3000.
pub open spec fn is_space_of_three(first: u8, second: u8, third: u8) -> bool {
    ||| first == 0xE1 && second == 0x9A && third == 0x80
    ||| first == 0xE2 && second == 0x80 && (0x80 <= third <= 0x8A || third == 0xA8 || third == 0xA9
        || third == 0xAF)
    ||| first == 0xE2 && second == 0x81 && third == 0x9F
    ||| first == 0xE3 && second == 0x80 && third == 0x80
}

/// How many bytes the white space character takes that begins at `at` in
/// `input`, and 0 where none begins there.
pub open spec fn space_len(input: Seq<u8>, at: int) -> nat {
    if at < 0 || at >= input.len() {
        0
    } else if is_ascii_space(input[at]) {
        1
    } else if at + 1 < input.len() && is_space_of_two(input[at], input[at + 1]) {
        2
    } else if at + 2 < input.len() && is_space_of_three(input[at], input[at + 1], input[at + 2]) {
        3
    } else {
        0
    }
}

/// Whether `input` from `from` up to `to` is white space characters, one
/// after the other, and nothing else.
pub open spec fn blank(input: Seq<u8>, from: int, to: int) -> bool
    decreases to - from,
{
    if from >= to {
        from == to
    } else if space_len(input, from) == 0 || from + space_len(input, from) > to {
        false
    } else {
        blank(input, from + space_len(input, from), to)
    }
}

/// Whether `byte` is an ASCII decimal digit.
pub open spec fn is_digit(byte: u8) -> bool {
    48 <= byte <= 57
}

/// Whether all of `word` is decimal digits.
pub open spec fn all_digits(word: Seq<u8>) -> bool {
    forall|i: int| 0 <= i < word.len() ==> is_digit(#[trigger] word[i])
}

/// The number that the decimal digits `digits` spell.
pub open spec fn decimal(digits: Seq<u8>) -> nat
    decreases digits.len(),
{
    if digits.len() == 0 {
        0
    } else {
        (decimal(digits.drop_last()) * 10 + (digits.last() - 48)) as nat
    }
}

/// Whether `input` holds exactly one word, from `start` up to `end`, and
/// white space around it: no white space character begins inside the word.
pub open spec fn lone_word(input: Seq<u8>, start: int, end: int) -> bool {
    &&& 0 <= start < end <= input.len()
    &&& blank(input, 0, start)
    &&& forall|i: int| start <= i < end ==> #[trigger] space_len(input, i) == 0
    &&& blank(input, end, input.len() as int)
}

/// The digits of the word `word`: the word itself, or what follows its
/// plus sign where it begins with one.
pub open spec fn digits_of(word: Seq<u8>) -> Seq<u8> {
    if word.len() > 0 && word[0] == 43 {
        word.drop_first()
    } else {
        word
    }
}

/// What the word `word` asks for while the server has `number_stations`
/// stations: `q` quits; decimal digits, at least one, with or without one
/// plus sign before them, select the station they spell, if the server has
/// it; anything else asks for nothing.
pub open spec fn word_meaning(word: Seq<u8>, number_stations: u16) -> Selection {
    if word == seq![113u8] {
        Selection::Quit
    } else if digits_of(word).len() > 0 && all_digits(digits_of(word)) && decimal(digits_of(word))
        < number_stations {
        Selection::Station(decimal(digits_of(word)) as u16)
    } else {
        Selection::Invalid
    }
}

/// What the line `input` asks for while the server has `number_stations`
/// stations: what its one word means, and nothing where it holds no word
/// or several.
pub open spec fn selection_of(input: Seq<u8>, number_stations: u16) -> Selection {
    if exists|start: int, end: int| lone_word(input, start, end) {
        let (start, end) = choose|start: int, end: int| lone_word(input, start, end);
        word_meaning(input.subrange(start, end), number_stations)
    } else {
        Selection::Invalid
    }
}

/// White space goes on where another white space character follows it.
proof fn lemma_blank_grows(input: Seq<u8>, from: int, to: int)
    requires
        0 <= from <= to,
        blank(input, from, to),
        space_len(input, to) > 0,
    ensures
        blank(input, from, to + space_len(input, to)),
    decreases to - from,
{
    let more = to + space_len(input, to);
    if from == to {
        assert(blank(input, more, more));
    } else {
        let next = from + space_len(input, from);
        assert(blank(input, next, to));
        lemma_blank_grows(input, next, to);
    }
}

/// Inside white space a white space character begins wherever one has
/// ended: white space that reaches `mid` and, from the same place, `to`
/// behind it has a character that begins at `mid`.
proof fn lemma_blank_splits(input: Seq<u8>, from: int, mid: int, to: int)
    requires
        from <= mid < to,
        blank(input, from, mid),
        blank(input, from, to),
    ensures
        space_len(input, mid) > 0,
    decreases mid - from,
{
    if from < mid {
        let next = from + space_len(input, from);
        assert(blank(input, next, mid));
        assert(blank(input, next, to));
        lemma_blank_splits(input, next, mid, to);
    }
}

/// A line has its one word at one place only.
pub proof fn lemma_lone_word_is_unique(input: Seq<u8>, start: int, end: int, other_start: int, other_end: int)
    requires
        lone_word(input, start, end),
        lone_word(input, other_start, other_end),
    ensures
        start == other_start,
        end == other_end,
{
    if start < other_start {
        lemma_blank_splits(input, 0, start, other_start);
        assert(space_len(input, start) == 0);
    }
    if other_start < start {
        lemma_blank_splits(input, 0, other_start, start);
        assert(space_len(input, other_start) == 0);
    }
    if end < other_end {
        assert(space_len(input, end) == 0);
    }
    if other_end < end {
        assert(space_len(input, other_end) == 0);
    }
}

/// A line that is white space from end to end holds no word.
proof fn lemma_no_word(input: Seq<u8>, start: int, end: int)
    requires
        blank(input, 0, input.len() as int),
    ensures
        !lone_word(input, start, end),
{
    if lone_word(input, start, end) {
        lemma_blank_splits(input, 0, start, input.len() as int);
        assert(space_len(input, start) == 0);
    }
}

/// A line with a word from `start` up to `end`, white space behind it and
/// then, at `later`, more of a word holds no lone word.
proof fn lemma_two_words(input: Seq<u8>, start: int, end: int, later: int, s: int, e: int)
    requires
        0 <= start < end < later < input.len(),
        blank(input, 0, start),
        forall|i: int| start <= i < end ==> #[trigger] space_len(input, i) == 0,
        space_len(input, end) > 0,
        blank(input, end, later),
        space_len(input, later) == 0,
    ensures
        !lone_word(input, s, e),
{
    if lone_word(input, s, e) {
        assert(space_len(input, start) == 0);
        assert(space_len(input, s) == 0);
        lemma_lone_prefix(input, start, s);
        if e < end {
            assert(space_len(input, e) == 0);
        }
        if e > end {
            assert(space_len(input, end) == 0);
        }
        lemma_blank_splits(input, end, later, input.len() as int);
    }
}

/// White space from the start of a line ends at one place only where no
/// white space character follows it.
proof fn lemma_lone_prefix(input: Seq<u8>, start: int, other: int)
    requires
        0 <= start,
        0 <= other,
        blank(input, 0, start),
        blank(input, 0, other),
        space_len(input, start) == 0,
        space_len(input, other) == 0,
    ensures
        start == other,
{
    if start < other {
        lemma_blank_splits(input, 0, start, other);
    }
    if other < start {
        lemma_blank_splits(input, 0, other, start);
    }
}

/// The digits read so far never spell more than all of them will.
proof fn lemma_decimal_grows(digits: Seq<u8>, read: int)
    requires
        all_digits(digits),
        0 <= read <= digits.len(),
    ensures
        decimal(digits.take(read)) <= decimal(digits),
    decreases digits.len() - read,
{
    if read < digits.len() {
        lemma_decimal_grows(digits, read + 1);
        assert(is_digit(digits[read]));
        lemma_decimal_step(digits, read);
    } else {
        assert(digits.take(read) =~= digits);
    }
}

/// One more digit read: ten times what was read, and the digit.
proof fn lemma_decimal_step(digits: Seq<u8>, read: int)
    requires
        0 <= read < digits.len(),
        is_digit(digits[read]),
    ensures
        decimal(digits.take(read + 1)) == decimal(digits.take(read)) * 10 + (digits[read] - 48),
{
    assert(digits.take(read + 1).drop_last() =~= digits.take(read));
}

/// How many bytes the white space character takes that begins at `at`.
fn space_at(input: &[u8], at: usize) -> (bytes: usize)
    requires
        at < input@.len(),
    ensures
        bytes == space_len(input@, at as int),
        at + bytes <= input@.len(),
{
    let len = input.len();
    let first: u8 = input[at];
    if first == 32 || (9 <= first && first <= 13) {
        return 1;
    }
    if len - at >= 2 {
        let second: u8 = input[at + 1];
        if first == 0xC2 && (second == 0x85 || second == 0xA0) {
            return 2;
        }
        if len - at >= 3 {
            let third: u8 = input[at + 2];
            let ogham = first == 0xE1 && second == 0x9A && third == 0x80;
            let general = first == 0xE2 && second == 0x80 && ((0x80 <= third && third <= 0x8A)
                || third == 0xA8 || third == 0xA9 || third == 0xAF);
            let mathematical = first == 0xE2 && second == 0x81 && third == 0x9F;
            let ideographic = first == 0xE3 && second == 0x80 && third == 0x80;
            if ogham || general || mathematical || ideographic {
                return 3;
            }
        }
    }
    0
}

/// Reads the line `input`, typed at the prompt while the server has
/// `number_stations` stations.
pub fn get_station_number(input: &[u8], number_stations: u16) -> (selection: Selection)
    ensures
        selection == selection_of(input@, number_stations),
{
    let len = input.len();
    let mut start: usize = 0;
    while start < len
        invariant
            start <= len == input@.len(),
            blank(input@, 0, start as int),
        ensures
            start <= len,
            blank(input@, 0, start as int),
            start < len ==> space_len(input@, start as int) == 0,
        decreases len - start,
    {
        let bytes = space_at(input, start);
        if bytes == 0 {
            break;
        }
        proof {
            lemma_blank_grows(input@, 0, start as int);
        }
        start += bytes;
    }
    if start == len {
        assert forall|s: int, e: int| !lone_word(input@, s, e) by {
            lemma_no_word(input@, s, e);
        }
        return Selection::Invalid;
    }
    let mut end: usize = start + 1;
    while end < len
        invariant
            start < end <= len == input@.len(),
            forall|i: int| start <= i < end ==> #[trigger] space_len(input@, i) == 0,
        ensures
            start < end <= len,
            forall|i: int| start <= i < end ==> #[trigger] space_len(input@, i) == 0,
            end < len ==> space_len(input@, end as int) > 0,
        decreases len - end,
    {
        if space_at(input, end) != 0 {
            break;
        }
        end += 1;
    }
    let mut rest: usize = end;
    while rest < len
        invariant
            start < end <= rest <= len == input@.len(),
            blank(input@, 0, start as int),
            forall|i: int| start <= i < end ==> #[trigger] space_len(input@, i) == 0,
            end < len ==> space_len(input@, end as int) > 0,
            blank(input@, end as int, rest as int),
        decreases len - rest,
    {
        let bytes = space_at(input, rest);
        if bytes == 0 {
            assert forall|s: int, e: int| !lone_word(input@, s, e) by {
                lemma_two_words(input@, start as int, end as int, rest as int, s, e);
            }
            return Selection::Invalid;
        }
        proof {
            lemma_blank_grows(input@, end as int, rest as int);
        }
        rest += bytes;
    }
    let ghost word = input@.subrange(start as int, end as int);
    proof {
        assert(lone_word(input@, start as int, end as int));
        let (s, e) = choose|s: int, e: int| lone_word(input@, s, e);
        lemma_lone_word_is_unique(input@, start as int, end as int, s, e);
        assert(selection_of(input@, number_stations) == word_meaning(word, number_stations));
    }
    if end - start == 1 && input[start] == 113 {
        assert(word =~= seq![113u8]);
        return Selection::Quit;
    }
    assert(word != seq![113u8]) by {
        if word == seq![113u8] {
            assert(word.len() == 1);
            assert(word[0] == 113u8);
        }
    }
    let from: usize = if input[start] == 43 {
        start + 1
    } else {
        start
    };
    let ghost digits = input@.subrange(from as int, end as int);
    assert(digits =~= digits_of(word)) by {
        assert(word[0] == input@[start as int]);
    }
    let mut value: u32 = 0;
    let mut at: usize = from;
    while at < end
        invariant
            from <= at <= end <= len == input@.len(),
            digits == input@.subrange(from as int, end as int),
            digits == digits_of(word),
            word != seq![113u8],
            selection_of(input@, number_stations) == word_meaning(word, number_stations),
            all_digits(digits.take(at - from)),
            value == decimal(digits.take(at - from)),
            value <= u16::MAX,
        decreases end - at,
    {
        let byte: u8 = input[at];
        if byte < 48 || byte > 57 {
            assert(!is_digit(digits[at - from]));
            return Selection::Invalid;
        }
        proof {
            assert(digits[at - from] == byte);
            lemma_decimal_step(digits, at - from);
            assert forall|i: int| 0 <= i < at - from + 1 implies is_digit(
                #[trigger] digits.take(at - from + 1)[i],
            ) by {
                if i < at - from {
                    assert(digits.take(at - from)[i] == digits[i]);
                }
            }
        }
        value = value * 10 + (byte - 48) as u32;
        at += 1;
        if value > u16::MAX as u32 {
            proof {
                if all_digits(digits) {
                    lemma_decimal_grows(digits, at - from);
                }
            }
            return Selection::Invalid;
        }
    }
    assert(digits.take(at - from) =~= digits);
    if from < end && value < number_stations as u32 {
        Selection::Station(value as u16)
    } else {
        Selection::Invalid
    }
}

} // verus!
