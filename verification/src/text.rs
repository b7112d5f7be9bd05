//! Character-level helpers over strings: byte offsets, case folding, word
//! boundaries and comparisons.
use vstd::prelude::*;
use vstd::string::{StrSliceExecFns, StringExecFns};

verus! {

/// Calls `String::push`: the character is appended.
#[verifier::external_body]
pub(crate) fn push_char(text: &mut String, ch: char)
    ensures
        final(text)@ == old(text)@.push(ch),
{
    text.push(ch)
}

/// Calls `str::eq`: two strings are equal when their characters are.
#[verifier::external_body]
pub(crate) fn same(left: &str, right: &str) -> (equal: bool)
    ensures
        equal == (left@ == right@),
{
    left == right
}

/// Whether a character is an ASCII one.
pub open spec fn is_ascii(ch: char) -> bool {
    ch as u32 <= 0x7f
}

/// The lowercase mapping of a character beyond ASCII, one or more characters
/// long.
pub uninterp spec fn wide_lowercase(ch: char) -> Seq<char>;

/// The lowercase mapping of a character.
pub open spec fn lowercase_of(ch: char) -> Seq<char> {
    if is_ascii(ch) {
        seq![ascii_lower(ch)]
    } else {
        wide_lowercase(ch)
    }
}

/// Calls `char::to_lowercase` and collects the characters it yields. An ASCII
/// character maps to one character; for any other the result depends on the
/// character alone and is named `wide_lowercase`.
#[verifier::external_body]
pub(crate) fn lowercase_chars(ch: char) -> (lower: Vec<char>)
    ensures
        is_ascii(ch) ==> lower@ == seq![ascii_lower(ch)],
        !is_ascii(ch) ==> lower@ == wide_lowercase(ch),
{
    ch.to_lowercase().collect()
}

/// Whether a text consists of ASCII characters.
pub open spec fn all_ascii(text: Seq<char>) -> bool {
    forall|i: int| 0 <= i < text.len() ==> is_ascii(#[trigger] text[i])
}

/// A text with characters beyond ASCII in lowercase, where what stands around
/// a character counts too.
pub uninterp spec fn wide_lowered(text: Seq<char>) -> Seq<char>;

/// A text in lowercase.
pub open spec fn lowered(text: Seq<char>) -> Seq<char> {
    if all_ascii(text) {
        ascii_lower_text(text)
    } else {
        wide_lowered(text)
    }
}

/// Calls `str::to_lowercase`. Of an ASCII text it changes the capital letters
/// and nothing else; of any other the result depends on the text alone and is
/// named `wide_lowered`.
#[verifier::external_body]
pub(crate) fn lowercase(text: &str) -> (lower: String)
    ensures
        all_ascii(text@) ==> lower@ == ascii_lower_text(text@),
        !all_ascii(text@) ==> lower@ == wide_lowered(text@),
{
    text.to_lowercase()
}

/// A string with every character replaced by its lowercase mapping.
pub open spec fn lowercase_text(text: Seq<char>) -> Seq<char>
    decreases text.len(),
{
    if text.len() == 0 {
        Seq::empty()
    } else {
        lowercase_text(text.drop_last()) + lowercase_of(text.last())
    }
}

/// Lowercases a string character by character.
pub fn to_lowercase_text(text: &str) -> (lower: String)
    ensures
        lower@ == lowercase_text(text@),
{
    let mut lower = String::new();
    let count: usize = text.unicode_len();
    let mut i: usize = 0;
    while i < count
        invariant
            count == text@.len(),
            i <= count,
            lower@ == lowercase_text(text@.take(i as int)),
        decreases count - i,
    {
        let mapped = lowercase_chars(text.get_char(i));
        let mut j: usize = 0;
        let ghost before = lower@;
        while j < mapped.len()
            invariant
                j <= mapped.len(),
                lower@ == before + mapped@.take(j as int),
            decreases mapped.len() - j,
        {
            push_char(&mut lower, mapped[j]);
            proof {
                assert(mapped@.take(j as int).push(mapped@[j as int]) =~= mapped@.take(j + 1));
            }
            j += 1;
        }
        proof {
            assert(mapped@.take(j as int) =~= mapped@);
            assert(text@.take(i + 1).drop_last() =~= text@.take(i as int));
        }
        i += 1;
    }
    proof {
        assert(text@.take(i as int) =~= text@);
    }
    lower
}

/// The lowercase form of an ASCII letter; other characters as they are.
pub open spec fn ascii_lower(ch: char) -> char {
    if 'A' <= ch <= 'Z' {
        (ch as u32 + 32) as char
    } else {
        ch
    }
}

/// A string with its ASCII letters in lowercase.
pub open spec fn ascii_lower_text(text: Seq<char>) -> Seq<char> {
    text.map_values(|ch: char| ascii_lower(ch))
}

/// Lowercases the ASCII letters of a string.
pub fn to_ascii_lowercase_text(text: &str) -> (lower: String)
    ensures
        lower@ == ascii_lower_text(text@),
{
    let mut lower = String::new();
    let count: usize = text.unicode_len();
    let mut i: usize = 0;
    while i < count
        invariant
            count == text@.len(),
            i <= count,
            lower@ == ascii_lower_text(text@.take(i as int)),
        decreases count - i,
    {
        let ch = text.get_char(i);
        let mapped = if 'A' <= ch && ch <= 'Z' {
            (ch as u8 + 32) as char
        } else {
            ch
        };
        push_char(&mut lower, mapped);
        i += 1;
        proof {
            assert(lower@ =~= ascii_lower_text(text@.take(i as int)));
        }
    }
    proof {
        assert(text@.take(i as int) =~= text@);
    }
    lower
}

/// A string with every occurrence of `ch` replaced by `by`.
pub open spec fn replaced_chars(text: Seq<char>, ch: char, by: Seq<char>) -> Seq<char>
    decreases text.len(),
{
    if text.len() == 0 {
        Seq::empty()
    } else {
        let before = replaced_chars(text.drop_last(), ch, by);
        if text.last() == ch {
            before + by
        } else {
            before.push(text.last())
        }
    }
}

/// Replaces every occurrence of `ch` by `by`.
pub fn replace_char(text: &str, ch: char, by: &str) -> (result: String)
    ensures
        result@ == replaced_chars(text@, ch, by@),
{
    let mut result = String::new();
    let count: usize = text.unicode_len();
    let mut i: usize = 0;
    while i < count
        invariant
            count == text@.len(),
            i <= count,
            result@ == replaced_chars(text@.take(i as int), ch, by@),
        decreases count - i,
    {
        let next = text.get_char(i);
        proof {
            assert(text@.take(i + 1).drop_last() =~= text@.take(i as int));
        }
        if next == ch {
            result.append(by);
        } else {
            push_char(&mut result, next);
        }
        i += 1;
    }
    proof {
        assert(text@.take(i as int) =~= text@);
    }
    result
}

/// Control characters: the general category Cc.
pub open spec fn is_control_char(ch: char) -> bool {
    ch as u32 <= 0x1f || 0x7f <= ch as u32 <= 0x9f
}

/// Whether `ch` is a control character.
pub fn is_control(ch: char) -> (control: bool)
    ensures
        control == is_control_char(ch),
{
    let code: u32 = ch as u32;
    code <= 0x1f || (0x7f <= code && code <= 0x9f)
}

/// Whether a character beyond ASCII is white space.
pub uninterp spec fn wide_space(ch: char) -> bool;

/// Whether a character is white space, which separates words.
pub open spec fn is_space(ch: char) -> bool {
    if is_ascii(ch) {
        ch == ' ' || 9 <= ch as u32 <= 13
    } else {
        wide_space(ch)
    }
}

/// Calls `char::is_whitespace`. Of the ASCII characters, the space and those
/// from tab to carriage return are white space; for any other the result
/// depends on the character alone and is named `wide_space`.
#[verifier::external_body]
pub(crate) fn is_whitespace(ch: char) -> (space: bool)
    ensures
        is_ascii(ch) ==> space == (ch == ' ' || 9 <= ch as u32 <= 13),
        !is_ascii(ch) ==> space == wide_space(ch),
{
    ch.is_whitespace()
}

/// Where the word before `from` starts: any spaces before `from` are passed
/// first, then the word.
pub open spec fn word_start_before(text: Seq<char>, from: int) -> int
    decreases from,
{
    if from <= 0 || from > text.len() {
        from
    } else if is_space(text[from - 1]) {
        word_start_before(text, from - 1)
    } else {
        run_start_before(text, from)
    }
}

/// Where the run of non-space characters that ends at `from` starts.
pub open spec fn run_start_before(text: Seq<char>, from: int) -> int
    decreases from,
{
    if from <= 0 || from > text.len() || is_space(text[from - 1]) {
        from
    } else {
        run_start_before(text, from - 1)
    }
}

/// Where the word after `from` ends: any spaces after `from` are passed
/// first, then the word.
pub open spec fn word_end_after(text: Seq<char>, from: int) -> int
    decreases text.len() - from,
{
    if from < 0 || from >= text.len() {
        from
    } else if is_space(text[from]) {
        word_end_after(text, from + 1)
    } else {
        run_end_after(text, from)
    }
}

/// Where the run of non-space characters that starts at `from` ends.
pub open spec fn run_end_after(text: Seq<char>, from: int) -> int
    decreases text.len() - from,
{
    if from < 0 || from >= text.len() || is_space(text[from]) {
        from
    } else {
        run_end_after(text, from + 1)
    }
}

/// Where the word before the character index `from` starts.
pub fn previous_word_start(text: &str, from: usize) -> (start: usize)
    requires
        from <= text@.len(),
    ensures
        start == word_start_before(text@, from as int),
        start <= from,
{
    let mut i: usize = from;
    while i > 0 && is_whitespace(text.get_char(i - 1))
        invariant
            i <= from <= text@.len(),
            word_start_before(text@, from as int) == word_start_before(text@, i as int),
        decreases i,
    {
        i -= 1;
    }
    let ghost spaces = i;
    while i > 0 && !is_whitespace(text.get_char(i - 1))
        invariant
            i <= spaces <= from <= text@.len(),
            word_start_before(text@, from as int) == word_start_before(text@, spaces as int),
            spaces > 0 ==> !is_space(text@[spaces - 1]),
            run_start_before(text@, spaces as int) == run_start_before(text@, i as int),
        decreases i,
    {
        i -= 1;
    }
    i
}

/// Where the word after the character index `from` ends.
pub fn next_word_end(text: &str, from: usize) -> (end: usize)
    requires
        from <= text@.len(),
    ensures
        end == word_end_after(text@, from as int),
        from <= end <= text@.len(),
{
    let count: usize = text.unicode_len();
    let mut i: usize = from;
    while i < count && is_whitespace(text.get_char(i))
        invariant
            from <= i <= count,
            count == text@.len(),
            word_end_after(text@, from as int) == word_end_after(text@, i as int),
        decreases count - i,
    {
        i += 1;
    }
    let ghost spaces = i;
    while i < count && !is_whitespace(text.get_char(i))
        invariant
            from <= spaces <= i <= count,
            count == text@.len(),
            word_end_after(text@, from as int) == word_end_after(text@, spaces as int),
            spaces < count ==> !is_space(text@[spaces as int]),
            run_end_after(text@, spaces as int) == run_end_after(text@, i as int),
        decreases count - i,
    {
        i += 1;
    }
    i
}

/// A string with the characters from `from` up to `to` replaced.
pub open spec fn spliced(text: Seq<char>, from: int, to: int, middle: Seq<char>) -> Seq<char> {
    text.take(from) + middle + text.skip(to)
}

/// Replaces the characters from `from` up to `to` by `middle`.
pub fn splice(text: &str, from: usize, to: usize, middle: &str) -> (result: String)
    requires
        from <= to <= text@.len(),
    ensures
        result@ == spliced(text@, from as int, to as int, middle@),
{
    let count: usize = text.unicode_len();
    proof {
        assert(text@.subrange(0, from as int) =~= text@.take(from as int));
        assert(text@.subrange(to as int, count as int) =~= text@.skip(to as int));
    }
    let mut result = text.substring_char(0, from).to_owned();
    result.append(middle);
    result.append(text.substring_char(to, count));
    result
}

/// A string of `count` copies of `ch`.
pub fn repeat_char(ch: char, count: usize) -> (text: String)
    ensures
        text@ == Seq::new(count as nat, |i: int| ch),
{
    let mut text = String::new();
    let mut i: usize = 0;
    while i < count
        invariant
            i <= count,
            text@ == Seq::new(i as nat, |k: int| ch),
        decreases count - i,
    {
        push_char(&mut text, ch);
        i += 1;
        proof {
            assert(text@ =~= Seq::new(i as nat, |k: int| ch));
        }
    }
    text
}

/// A decimal digit as a character.
pub open spec fn digit_char(digit: nat) -> char {
    ('0' as u32 + digit) as char
}

/// A number in decimal notation.
pub open spec fn decimal(number: nat) -> Seq<char>
    decreases number,
{
    if number < 10 {
        seq![digit_char(number)]
    } else {
        decimal(number / 10).push(digit_char(number % 10))
    }
}

/// Writes a number in decimal notation.
pub fn decimal_text(number: usize) -> (text: String)
    ensures
        text@ == decimal(number as nat),
    decreases number,
{
    let digit: char = match number % 10 {
        0 => '0',
        1 => '1',
        2 => '2',
        3 => '3',
        4 => '4',
        5 => '5',
        6 => '6',
        7 => '7',
        8 => '8',
        _ => '9',
    };
    if number < 10 {
        let mut text = String::new();
        push_char(&mut text, digit);
        proof {
            assert(text@ =~= decimal(number as nat));
        }
        text
    } else {
        let mut text = decimal_text(number / 10);
        push_char(&mut text, digit);
        text
    }
}

/// Two numbers with the same decimal notation are the same number.
pub proof fn decimal_is_unique(a: nat, b: nat)
    requires
        decimal(a) == decimal(b),
    ensures
        a == b,
    decreases a,
{
    assert(decimal(a).last() == digit_char(a % 10));
    assert(decimal(b).last() == digit_char(b % 10));
    assert(decimal(a).len() >= 1 && decimal(b).len() >= 1);
    if a >= 10 && b >= 10 {
        assert(decimal(a).drop_last() =~= decimal(a / 10));
        assert(decimal(b).drop_last() =~= decimal(b / 10));
        decimal_is_unique(a / 10, b / 10);
    } else if a >= 10 {
        lemma_decimal_nonempty(a / 10);
    } else if b >= 10 {
        lemma_decimal_nonempty(b / 10);
    }
}

proof fn lemma_decimal_nonempty(number: nat)
    ensures
        decimal(number).len() >= 1,
{
}

/// Whether `prefix` starts `text`.
pub open spec fn starts_with(text: Seq<char>, prefix: Seq<char>) -> bool {
    prefix.len() <= text.len() && text.take(prefix.len() as int) == prefix
}

/// Whether `text` starts with `prefix`.
pub fn has_prefix(text: &str, prefix: &str) -> (found: bool)
    ensures
        found == starts_with(text@, prefix@),
{
    let wanted: usize = prefix.unicode_len();
    if wanted > text.unicode_len() {
        return false;
    }
    proof {
        assert(text@.subrange(0, wanted as int) =~= text@.take(wanted as int));
    }
    same(text.substring_char(0, wanted), prefix)
}

/// The byte offset of the character at `index`, or of the end of the text
/// when `index` is past the last character.
pub open spec fn byte_offset(text: Seq<char>, index: nat) -> nat {
    let kept = if index <= text.len() {
        index
    } else {
        text.len()
    };
    vstd::utf8::encode_utf8(text.take(kept as int)).len()
}

/// Converts a character index into a byte offset of the UTF-8 encoding.
pub fn char_index_to_byte_index(text: &str, char_idx: usize) -> (offset: usize)
    ensures
        offset == byte_offset(text@, char_idx as nat),
{
    let count: usize = text.unicode_len();
    let kept: usize = if char_idx <= count {
        char_idx
    } else {
        count
    };
    proof {
        assert(text@.subrange(0, kept as int) =~= text@.take(kept as int));
    }
    text.substring_char(0, kept).as_bytes().len()
}

proof fn lemma_byte_offset_step(text: Seq<char>, index: nat)
    requires
        text.len() > 0,
        0 < index,
    ensures
        byte_offset(text, index) == vstd::utf8::encode_scalar(text[0] as u32).len() + byte_offset(
            text.drop_first(),
            (index - 1) as nat,
        ),
{
    let kept = if index <= text.len() {
        index
    } else {
        text.len()
    };
    let head = text.take(kept as int);
    assert(head.drop_first() =~= text.drop_first().take(kept - 1));
}

/// A byte offset computed from a character index never splits a character:
/// it is a character boundary of the encoded text.
pub proof fn byte_offset_is_boundary(text: Seq<char>, index: nat)
    ensures
        vstd::utf8::is_char_boundary(
            vstd::utf8::encode_utf8(text),
            byte_offset(text, index) as int,
        ),
        byte_offset(text, index) <= vstd::utf8::encode_utf8(text).len(),
    decreases text.len(),
{
    vstd::utf8::encode_utf8_valid_utf8(text);
    if index == 0 || text.len() == 0 {
        let kept = if index <= text.len() {
            index
        } else {
            text.len()
        };
        assert(text.take(kept as int) =~= Seq::<char>::empty());
    } else {
        let bytes = vstd::utf8::encode_utf8(text);
        let rest = text.drop_first();
        byte_offset_is_boundary(rest, (index - 1) as nat);
        lemma_byte_offset_step(text, index);
        vstd::utf8::encode_utf8_first_scalar(text);
        assert(vstd::utf8::pop_first_scalar(bytes) =~= vstd::utf8::encode_utf8(rest));
    }
}

/// A later character has a later byte offset.
pub proof fn byte_offset_is_monotone(text: Seq<char>, index: nat, later: nat)
    requires
        index < later <= text.len(),
    ensures
        byte_offset(text, index) < byte_offset(text, later),
    decreases text.len(),
{
    lemma_byte_offset_step(text, later);
    if index == 0 {
        assert(text.take(0) =~= Seq::<char>::empty());
    } else {
        lemma_byte_offset_step(text, index);
        byte_offset_is_monotone(text.drop_first(), (index - 1) as nat, (later - 1) as nat);
    }
}

/// Going back a word stops at the start of the text or behind a space, and
/// never moves forward.
pub proof fn word_start_is_boundary(text: Seq<char>, from: int)
    requires
        0 <= from <= text.len(),
    ensures
        ({
            let start = word_start_before(text, from);
            &&& 0 <= start <= from
            &&& start > 0 ==> is_space(text[start - 1])
            &&& from > 0 ==> start < from
        }),
    decreases from,
{
    if from > 0 {
        if is_space(text[from - 1]) {
            word_start_is_boundary(text, from - 1);
        } else {
            lemma_run_start(text, from);
        }
    }
}

proof fn lemma_run_start(text: Seq<char>, from: int)
    requires
        0 <= from <= text.len(),
    ensures
        ({
            let start = run_start_before(text, from);
            &&& 0 <= start <= from
            &&& start > 0 ==> is_space(text[start - 1])
            &&& from > 0 && !is_space(text[from - 1]) ==> start < from
        }),
    decreases from,
{
    if from > 0 && !is_space(text[from - 1]) {
        lemma_run_start(text, from - 1);
    }
}

/// Going on a word stops at the end of the text or before a space, and never
/// moves back.
pub proof fn word_end_is_boundary(text: Seq<char>, from: int)
    requires
        0 <= from <= text.len(),
    ensures
        ({
            let end = word_end_after(text, from);
            &&& from <= end <= text.len()
            &&& end < text.len() ==> is_space(text[end])
            &&& from < text.len() ==> from < end
        }),
    decreases text.len() - from,
{
    if from < text.len() {
        if is_space(text[from]) {
            word_end_is_boundary(text, from + 1);
        } else {
            lemma_run_end(text, from);
        }
    }
}

proof fn lemma_run_end(text: Seq<char>, from: int)
    requires
        0 <= from <= text.len(),
    ensures
        ({
            let end = run_end_after(text, from);
            &&& from <= end <= text.len()
            &&& end < text.len() ==> is_space(text[end])
            &&& from < text.len() && !is_space(text[from]) ==> from < end
        }),
    decreases text.len() - from,
{
    if from < text.len() && !is_space(text[from]) {
        lemma_run_end(text, from + 1);
    }
}

/// What each of several strings holds.
pub open spec fn texts(strings: Seq<String>) -> Seq<Seq<char>> {
    strings.map_values(|text: String| text@)
}

/// The parts of a text between occurrences of `sep`.
pub open spec fn split_parts(text: Seq<char>, sep: char) -> Seq<Seq<char>>
    decreases text.len(),
{
    if text.len() == 0 {
        seq![Seq::empty()]
    } else {
        let before = split_parts(text.drop_last(), sep);
        if text.last() == sep {
            before.push(Seq::empty())
        } else {
            before.drop_last().push(before.last().push(text.last()))
        }
    }
}

/// The parts with `sep` between them.
pub open spec fn joined(parts: Seq<Seq<char>>, sep: Seq<char>) -> Seq<char>
    decreases parts.len(),
{
    if parts.len() == 0 {
        Seq::empty()
    } else if parts.len() == 1 {
        parts[0]
    } else {
        joined(parts.drop_last(), sep) + sep + parts.last()
    }
}

/// Splitting a text loses nothing: the parts joined again are the text, and
/// no part holds the separator.
pub proof fn split_parts_rejoin(text: Seq<char>, sep: char)
    ensures
        joined(split_parts(text, sep), seq![sep]) == text,
        split_parts(text, sep).len() > 0,
        forall|i: int, k: int|
            0 <= i < split_parts(text, sep).len() && 0 <= k < split_parts(text, sep)[i].len()
                ==> #[trigger] split_parts(text, sep)[i][k] != sep,
    decreases text.len(),
{
    if text.len() > 0 {
        let before = split_parts(text.drop_last(), sep);
        split_parts_rejoin(text.drop_last(), sep);
        let parts = split_parts(text, sep);
        if text.last() == sep {
            assert(parts.drop_last() =~= before);
            assert(joined(parts, seq![sep]) =~= text);
        } else {
            assert(parts.drop_last() =~= before.drop_last());
            assert(parts.last() == before.last().push(text.last()));
            assert(joined(parts, seq![sep]) =~= joined(before, seq![sep]).push(text.last()));
            assert(joined(parts, seq![sep]) =~= text);
            assert forall|i: int, k: int|
                0 <= i < parts.len() && 0 <= k < parts[i].len() implies #[trigger] parts[i][k]
                != sep by {
                if i < parts.len() - 1 {
                    assert(parts[i] == before[i]);
                    assert(before[i][k] != sep);
                } else if k < parts[i].len() - 1 {
                    assert(before[i][k] != sep);
                }
            }
        }
    }
}

/// Splits a text at every occurrence of `sep`.
pub fn split_text(text: &str, sep: char) -> (parts: Vec<String>)
    ensures
        texts(parts@) == split_parts(text@, sep),
{
    let mut parts: Vec<String> = Vec::new();
    let mut part = String::new();
    let count: usize = text.unicode_len();
    let mut i: usize = 0;
    while i < count
        invariant
            i <= count,
            count == text@.len(),
            texts(parts@).push(part@) == split_parts(text@.take(i as int), sep),
        decreases count - i,
    {
        let ch = text.get_char(i);
        let ghost done = texts(parts@);
        let ghost open = part@;
        proof {
            assert(text@.take(i + 1).drop_last() =~= text@.take(i as int));
            assert(done.push(open).drop_last() =~= done);
        }
        if ch == sep {
            parts.push(part);
            part = String::new();
            proof {
                assert(texts(parts@) =~= done.push(open));
            }
        } else {
            push_char(&mut part, ch);
        }
        i += 1;
    }
    proof {
        assert(text@.take(i as int) =~= text@);
        assert(texts(parts@.push(part)) =~= texts(parts@).push(part@));
    }
    parts.push(part);
    parts
}

/// Joins strings with `sep` between them.
pub fn join_text(parts: &Vec<String>, sep: &str) -> (text: String)
    ensures
        text@ == joined(texts(parts@), sep@),
{
    let mut text = String::new();
    let mut i: usize = 0;
    while i < parts.len()
        invariant
            i <= parts@.len(),
            text@ == joined(texts(parts@).take(i as int), sep@),
        decreases parts@.len() - i,
    {
        proof {
            let taken = texts(parts@).take(i + 1);
            assert(taken.drop_last() =~= texts(parts@).take(i as int));
            assert(taken.last() == parts@[i as int]@);
        }
        if i > 0 {
            text.append(sep);
        }
        text.append(parts[i].as_str());
        i += 1;
        proof {
            assert(text@ =~= joined(texts(parts@).take(i as int), sep@));
        }
    }
    proof {
        assert(texts(parts@).take(i as int) =~= texts(parts@));
    }
    text
}

/// Whether `text` consists of decimal digits.
pub open spec fn all_digits(text: Seq<char>) -> bool {
    forall|i: int| 0 <= i < text.len() ==> '0' <= #[trigger] text[i] <= '9'
}

/// The number that decimal digits denote.
pub open spec fn digits_value(digits: Seq<char>) -> nat
    decreases digits.len(),
{
    if digits.len() == 0 {
        0
    } else {
        digits_value(digits.drop_last()) * 10 + ((digits.last() as u32 - '0' as u32) as nat)
    }
}

/// The number that a text of decimal digits denotes.
pub open spec fn digits_number(text: Seq<char>) -> Option<nat> {
    if text.len() > 0 && all_digits(text) {
        Some(digits_value(text))
    } else {
        None
    }
}

proof fn lemma_digits_grow(digits: Seq<char>, upto: int)
    requires
        0 <= upto <= digits.len(),
        all_digits(digits),
    ensures
        digits_value(digits.take(upto)) <= digits_value(digits),
    decreases digits.len(),
{
    if upto == digits.len() {
        assert(digits.take(upto) =~= digits);
    } else {
        assert(digits.drop_last().take(upto) =~= digits.take(upto));
        lemma_digits_grow(digits.drop_last(), upto);
    }
}

/// The number that the decimal digits from `start` on denote, where there is
/// at least one, no other character follows, and the number fits in 64 bits.
pub fn parse_digits(text: &str, start: usize) -> (number: Option<u64>)
    requires
        start <= text@.len(),
    ensures
        number == (match digits_number(text@.skip(start as int)) {
            Some(number) if number <= u64::MAX => Some(number as u64),
            _ => None,
        }),
{
    let count: usize = text.unicode_len();
    let ghost digits = text@.skip(start as int);
    if start == count {
        return None;
    }
    let mut value: u64 = 0;
    let mut i: usize = start;
    while i < count
        invariant
            start <= i <= count,
            start < count,
            count == text@.len(),
            digits == text@.skip(start as int),
            forall|k: int| 0 <= k < i - start ==> '0' <= #[trigger] digits[k] <= '9',
            value == digits_value(digits.take(i - start)),
        decreases count - i,
    {
        let ch = text.get_char(i);
        let ghost at = i - start;
        assert(digits[at] == ch);
        if ch < '0' || ch > '9' {
            return None;
        }
        let digit: u32 = ch as u32 - '0' as u32;
        proof {
            assert(digits.take(at + 1).drop_last() =~= digits.take(at));
            if all_digits(digits) {
                lemma_digits_grow(digits, at + 1);
            }
        }
        let next: u128 = value as u128 * 10 + digit as u128;
        if next > u64::MAX as u128 {
            return None;
        }
        value = next as u64;
        i += 1;
    }
    proof {
        assert(digits.take(i - start) =~= digits);
    }
    Some(value)
}

/// The 32-bit integer that a text denotes: decimal digits, perhaps behind a
/// sign.
pub open spec fn int_number(text: Seq<char>) -> Option<i32> {
    let signed = text.len() > 0 && (text[0] == '+' || text[0] == '-');
    let digits = if signed {
        text.skip(1)
    } else {
        text
    };
    match digits_number(digits) {
        Some(number) => {
            let value = if text[0] == '-' {
                -(number as int)
            } else {
                number as int
            };
            if i32::MIN <= value <= i32::MAX {
                Some(value as i32)
            } else {
                None
            }
        },
        None => None,
    }
}

/// The 32-bit integer that a text denotes, if it denotes one.
pub fn parse_int(text: &str) -> (number: Option<i32>)
    ensures
        number == int_number(text@),
{
    if text.unicode_len() == 0 {
        return None;
    }
    let first = text.get_char(0);
    let start: usize = if first == '+' || first == '-' {
        1
    } else {
        0
    };
    proof {
        if start == 0 {
            assert(text@.skip(0) =~= text@);
        }
    }
    match parse_digits(text, start) {
        Some(value) => if first == '-' {
            if value <= 2147483648 {
                Some((-(value as i64)) as i32)
            } else {
                None
            }
        } else if value <= 2147483647 {
            Some(value as i32)
        } else {
            None
        },
        None => None,
    }
}

/// How many characters of a text from `from` on are spaces.
pub open spec fn first_word_char(text: Seq<char>, from: int) -> int
    decreases text.len() - from,
{
    if from < 0 || from >= text.len() || !is_space(text[from]) {
        from
    } else {
        first_word_char(text, from + 1)
    }
}

/// Where the spaces that end at `to` start.
pub open spec fn last_word_end(text: Seq<char>, from: int, to: int) -> int
    decreases to - from,
{
    if to <= from || to > text.len() || !is_space(text[to - 1]) {
        to
    } else {
        last_word_end(text, from, to - 1)
    }
}

/// A text without the spaces at its ends.
pub open spec fn trimmed(text: Seq<char>) -> Seq<char> {
    let start = first_word_char(text, 0);
    text.subrange(start, last_word_end(text, start, text.len() as int))
}

/// Cuts the spaces off both ends of a text.
pub fn trim_spaces(text: &str) -> (inner: &str)
    ensures
        inner@ == trimmed(text@),
{
    let count: usize = text.unicode_len();
    let mut start: usize = 0;
    while start < count && is_whitespace(text.get_char(start))
        invariant
            start <= count,
            count == text@.len(),
            first_word_char(text@, 0) == first_word_char(text@, start as int),
        decreases count - start,
    {
        start += 1;
    }
    let mut end: usize = count;
    while end > start && is_whitespace(text.get_char(end - 1))
        invariant
            start <= end <= count,
            count == text@.len(),
            last_word_end(text@, start as int, count as int) == last_word_end(
                text@,
                start as int,
                end as int,
            ),
        decreases end,
    {
        end -= 1;
    }
    text.substring_char(start, end)
}

/// The decimal notation of a number is read back as that number.
pub proof fn decimal_is_read_back(number: nat)
    ensures
        digits_number(decimal(number)) == Some(number),
    decreases number,
{
    if number < 10 {
        let text = decimal(number);
        assert(text.drop_last() =~= Seq::<char>::empty());
        assert(digits_value(text.drop_last()) == 0);
        assert(text.last() == digit_char(number));
    } else {
        decimal_is_read_back(number / 10);
        let text = decimal(number);
        assert(text.drop_last() =~= decimal(number / 10));
        assert(text.last() == digit_char(number % 10));
        assert forall|i: int| 0 <= i < text.len() implies '0' <= #[trigger] text[i] <= '9' by {
            if i < text.len() - 1 {
                assert(decimal(number / 10)[i] == text[i]);
            }
        }
    }
}

/// The decimal notation of a number that fits is read as that number, with or
/// without a plus sign, and behind a minus sign as its negative. Nothing else than
/// a sign and digits is read as a number.
pub proof fn signed_numbers_are_read(number: nat, text: Seq<char>)
    ensures
        number <= i32::MAX ==> int_number(decimal(number)) == Some(number as i32),
        number <= i32::MAX ==> int_number(seq!['+'] + decimal(number)) == Some(number as i32),
        number <= i32::MAX + 1 ==> int_number(seq!['-'] + decimal(number)) == Some(
            (-(number as int)) as i32,
        ),
        number > i32::MAX ==> int_number(decimal(number)) is None,
        int_number(text) is Some ==> text.len() > 0 && (all_digits(text) || ((text[0] == '+'
            || text[0] == '-') && text.len() > 1 && all_digits(text.skip(1)))),
{
    decimal_is_read_back(number);
    let plain = decimal(number);
    assert('0' <= plain[0] <= '9');
    assert((seq!['+'] + plain).skip(1) =~= plain);
    assert((seq!['-'] + plain).skip(1) =~= plain);
}

/// Going back a word passes the spaces before the place and then exactly one
/// word: between where it stops and where it started lie characters of that word
/// and behind them spaces.
pub proof fn one_word_back(text: Seq<char>, from: int) -> (spaces: int)
    requires
        0 <= from <= text.len(),
    ensures
        word_start_before(text, from) <= spaces <= from,
        forall|i: int|
            word_start_before(text, from) <= i < spaces ==> !is_space(#[trigger] text[i]),
        forall|i: int| spaces <= i < from ==> is_space(#[trigger] text[i]),
        word_start_before(text, from) > 0 ==> is_space(text[word_start_before(text, from) - 1]),
        word_start_before(text, from) == spaces ==> spaces == 0,
    decreases from,
{
    if from == 0 {
        0
    } else if is_space(text[from - 1]) {
        one_word_back(text, from - 1)
    } else {
        lemma_run_start(text, from);
        lemma_run_is_word(text, from);
        from
    }
}

proof fn lemma_run_is_word(text: Seq<char>, from: int)
    requires
        0 <= from <= text.len(),
    ensures
        forall|i: int|
            run_start_before(text, from) <= i < from ==> !is_space(#[trigger] text[i]),
    decreases from,
{
    if from > 0 && !is_space(text[from - 1]) {
        lemma_run_is_word(text, from - 1);
    }
}

/// Going on a word passes the spaces after the place and then exactly one word:
/// between where it started and where it stops lie spaces and behind them
/// characters of that word.
pub proof fn one_word_on(text: Seq<char>, from: int) -> (spaces: int)
    requires
        0 <= from <= text.len(),
    ensures
        from <= spaces <= word_end_after(text, from) <= text.len(),
        forall|i: int| from <= i < spaces ==> is_space(#[trigger] text[i]),
        forall|i: int|
            spaces <= i < word_end_after(text, from) ==> !is_space(#[trigger] text[i]),
        word_end_after(text, from) < text.len() ==> is_space(text[word_end_after(text, from)]),
        word_end_after(text, from) == spaces ==> spaces == text.len(),
    decreases text.len() - from,
{
    if from == text.len() {
        from
    } else if is_space(text[from]) {
        one_word_on(text, from + 1)
    } else {
        lemma_run_end(text, from);
        lemma_run_on_is_word(text, from);
        from
    }
}

proof fn lemma_run_on_is_word(text: Seq<char>, from: int)
    requires
        0 <= from <= text.len(),
    ensures
        forall|i: int| from <= i < run_end_after(text, from) ==> !is_space(#[trigger] text[i]),
    decreases text.len() - from,
{
    if from < text.len() && !is_space(text[from]) {
        lemma_run_on_is_word(text, from + 1);
    }
}

/// Trimming cuts spaces off the two ends and nothing else: what is left starts
/// and ends with no space.
pub proof fn trimming_cuts_spaces(text: Seq<char>) -> (ends: (int, int))
    ensures
        0 <= ends.0 <= ends.1 <= text.len(),
        trimmed(text) == text.subrange(ends.0, ends.1),
        forall|i: int| 0 <= i < ends.0 ==> is_space(#[trigger] text[i]),
        forall|i: int| ends.1 <= i < text.len() ==> is_space(#[trigger] text[i]),
        trimmed(text).len() > 0 ==> !is_space(trimmed(text)[0]) && !is_space(
            trimmed(text).last(),
        ),
{
    let start = lemma_first_word_char(text, 0);
    let end = lemma_last_word_end(text, start, text.len() as int);
    (start, end)
}

proof fn lemma_first_word_char(text: Seq<char>, from: int) -> (start: int)
    requires
        0 <= from <= text.len(),
    ensures
        start == first_word_char(text, from),
        from <= start <= text.len(),
        forall|i: int| from <= i < start ==> is_space(#[trigger] text[i]),
        start < text.len() ==> !is_space(text[start]),
    decreases text.len() - from,
{
    if from < text.len() && is_space(text[from]) {
        lemma_first_word_char(text, from + 1)
    } else {
        from
    }
}

proof fn lemma_last_word_end(text: Seq<char>, from: int, to: int) -> (end: int)
    requires
        0 <= from <= to <= text.len(),
    ensures
        end == last_word_end(text, from, to),
        from <= end <= to,
        forall|i: int| end <= i < to ==> is_space(#[trigger] text[i]),
        end > from ==> !is_space(text[end - 1]),
    decreases to - from,
{
    if to > from && is_space(text[to - 1]) {
        lemma_last_word_end(text, from, to - 1)
    } else {
        to
    }
}

/// A text starts with a prefix exactly when it is that prefix followed by some
/// rest.
pub proof fn prefix_is_followed_by_rest(text: Seq<char>, prefix: Seq<char>, rest: Seq<char>)
    ensures
        starts_with(prefix + rest, prefix),
        starts_with(text, prefix) ==> text == prefix + text.skip(prefix.len() as int),
{
    assert((prefix + rest).take(prefix.len() as int) =~= prefix);
    if starts_with(text, prefix) {
        assert(text =~= text.take(prefix.len() as int) + text.skip(prefix.len() as int));
    }
}

/// Joining puts the separator between two parts: the text of the parts before,
/// the separator, the last part.
pub proof fn joining_separates_parts(parts: Seq<Seq<char>>, last: Seq<char>, sep: Seq<char>)
    ensures
        joined(Seq::empty(), sep) == Seq::<char>::empty(),
        joined(seq![last], sep) == last,
        parts.len() > 0 ==> joined(parts.push(last), sep) == joined(parts, sep) + sep + last,
{
    assert(parts.push(last).drop_last() =~= parts);
}

/// Splitting what was joined with a separator that no part holds gives the parts
/// back.
pub proof fn split_undoes_join(parts: Seq<Seq<char>>, sep: char)
    requires
        parts.len() > 0,
        forall|i: int, k: int|
            0 <= i < parts.len() && 0 <= k < parts[i].len() ==> #[trigger] parts[i][k] != sep,
    ensures
        split_parts(joined(parts, seq![sep]), sep) == parts,
    decreases parts.len(),
{
    let rest = parts.drop_last();
    let last = parts.last();
    assert(parts =~= rest.push(last));
    if rest.len() == 0 {
        assert(parts =~= seq![last]);
        assert forall|k: int| 0 <= k < last.len() implies #[trigger] last[k] != sep by {
            assert(parts[0][k] != sep);
        }
        assert(split_parts(Seq::<char>::empty(), sep).drop_last() =~= Seq::empty());
        lemma_split_append(Seq::empty(), last, sep);
        assert(Seq::<char>::empty() + last =~= last);
        assert(split_parts(last, sep) =~= parts);
    } else {
        assert forall|i: int, k: int|
            0 <= i < rest.len() && 0 <= k < rest[i].len() implies #[trigger] rest[i][k] != sep by {
            assert(parts[i][k] != sep);
        }
        split_undoes_join(rest, sep);
        let head = joined(rest, seq![sep]) + seq![sep];
        assert(head.drop_last() =~= joined(rest, seq![sep]));
        assert(split_parts(head, sep) =~= rest.push(Seq::empty()));
        assert forall|k: int| 0 <= k < last.len() implies #[trigger] last[k] != sep by {
            assert(parts[parts.len() - 1][k] != sep);
        }
        lemma_split_append(head, last, sep);
        assert(split_parts(head, sep).drop_last() =~= rest);
        assert(Seq::<char>::empty() + last =~= last);
        assert(split_parts(head + last, sep) =~= parts);
        assert(joined(parts, seq![sep]) =~= head + last);
    }
}

proof fn lemma_split_append(text: Seq<char>, more: Seq<char>, sep: char)
    requires
        forall|k: int| 0 <= k < more.len() ==> #[trigger] more[k] != sep,
    ensures
        split_parts(text, sep).len() > 0,
        split_parts(text + more, sep) == split_parts(text, sep).drop_last().push(
            split_parts(text, sep).last() + more,
        ),
    decreases more.len(),
{
    split_parts_rejoin(text, sep);
    let before = split_parts(text, sep);
    if more.len() == 0 {
        assert(text + more =~= text);
        assert(before.last() + more =~= before.last());
        assert(before.drop_last().push(before.last()) =~= before);
    } else {
        let shorter = more.drop_last();
        assert forall|k: int| 0 <= k < shorter.len() implies #[trigger] shorter[k] != sep by {
            assert(more[k] != sep);
        }
        lemma_split_append(text, shorter, sep);
        assert((text + more).drop_last() =~= text + shorter);
        assert((text + more).last() == more.last());
        let so_far = split_parts(text + shorter, sep);
        assert(so_far.drop_last() =~= before.drop_last());
        assert(so_far.last() == before.last() + shorter);
        assert((before.last() + shorter).push(more.last()) =~= before.last() + more);
    }
}

/// The lowercase form of an ASCII capital is the small letter at the same place
/// of the alphabet; every other character stays.
pub proof fn capitals_become_small(text: Seq<char>, i: int)
    requires
        0 <= i < text.len(),
    ensures
        ascii_lower_text(text).len() == text.len(),
        'A' <= text[i] <= 'Z' ==> ascii_lower_text(text)[i] as u32 - 'a' as u32 == text[i] as u32
            - 'A' as u32,
        !('A' <= text[i] <= 'Z') ==> ascii_lower_text(text)[i] == text[i],
        ascii_lower_text(ascii_lower_text(text)) == ascii_lower_text(text),
{
    assert(ascii_lower_text(ascii_lower_text(text)) =~= ascii_lower_text(text));
}

/// Replacing a character puts the replacement in its place wherever it occurs
/// and keeps every other character where it stands between them.
pub proof fn replacing_keeps_the_rest(a: Seq<char>, b: Seq<char>, ch: char, by: Seq<char>)
    ensures
        replaced_chars(a + b, ch, by) == replaced_chars(a, ch, by) + replaced_chars(b, ch, by),
        replaced_chars(seq![ch], ch, by) == by,
        !a.contains(ch) ==> replaced_chars(a, ch, by) == a,
    decreases b.len() + a.len(),
{
    reveal_with_fuel(replaced_chars, 2);
    assert(seq![ch].drop_last() =~= Seq::<char>::empty());
    assert(replaced_chars(seq![ch], ch, by) =~= by);
    if b.len() == 0 {
        assert(a + b =~= a);
        assert(replaced_chars(a, ch, by) + replaced_chars(b, ch, by) =~= replaced_chars(a, ch, by));
    } else {
        assert((a + b).drop_last() =~= a + b.drop_last());
        replacing_keeps_the_rest(a, b.drop_last(), ch, by);
        assert(replaced_chars(a + b, ch, by) =~= replaced_chars(a, ch, by) + replaced_chars(
            b,
            ch,
            by,
        ));
    }
    if !a.contains(ch) && a.len() > 0 {
        assert(a.contains(a.last()));
        let shorter = a.drop_last();
        if shorter.contains(ch) {
            assert(a[shorter.index_of(ch)] == ch);
        }
        replacing_keeps_the_rest(shorter, Seq::empty(), ch, by);
        assert(replaced_chars(a, ch, by) =~= a);
    }
}

/// A separator and a part without one, put behind a text, add that part to the
/// text's parts.
pub proof fn appended_part_is_last(text: Seq<char>, part: Seq<char>, sep: char)
    requires
        forall|k: int| 0 <= k < part.len() ==> #[trigger] part[k] != sep,
    ensures
        split_parts(text + seq![sep] + part, sep) == split_parts(text, sep).push(part),
        split_parts(part, sep) == seq![part],
{
    let head = text + seq![sep];
    assert(head.drop_last() =~= text);
    assert(split_parts(head, sep) =~= split_parts(text, sep).push(Seq::empty()));
    lemma_split_append(head, part, sep);
    assert(split_parts(head, sep).drop_last() =~= split_parts(text, sep));
    assert(Seq::<char>::empty() + part =~= part);
    lemma_split_append(Seq::empty(), part, sep);
    assert(split_parts(Seq::<char>::empty(), sep).drop_last() =~= Seq::empty());
    assert(split_parts(part, sep) =~= seq![part]);
}

/// The first part of a text ends at the first separator. A text without a separator is
/// one part.
pub proof fn first_part_ends_at_separator(name: Seq<char>, rest: Seq<char>, sep: char)
    requires
        !name.contains(sep),
    ensures
        split_parts(name, sep) == seq![name],
        split_parts(name + seq![sep] + rest, sep).len() > 1,
        split_parts(name + seq![sep] + rest, sep)[0] == name,
    decreases name.len() + rest.len(),
{
    let whole = name + seq![sep] + rest;
    if rest.len() == 0 {
        assert(whole.drop_last() =~= name);
        if name.len() > 0 {
            let shorter = name.drop_last();
            assert(name[name.len() - 1] == name.last());
            assert forall|i: int| 0 <= i < shorter.len() implies shorter[i] != sep by {
                assert(name[i] != sep);
            }
            first_part_ends_at_separator(shorter, Seq::empty(), sep);
            assert(split_parts(name, sep) =~= seq![shorter.push(name.last())]);
            assert(shorter.push(name.last()) =~= name);
        } else {
            assert(name =~= Seq::empty());
            assert(split_parts(name, sep) =~= seq![name]);
        }
    } else {
        assert(whole.drop_last() =~= name + seq![sep] + rest.drop_last());
        first_part_ends_at_separator(name, rest.drop_last(), sep);
        assert(whole.last() == rest.last());
    }
}

/// Of the characters of ASCII, the blank and those from tab to carriage return are white
/// space.
pub proof fn ascii_white_space(ch: char)
    requires
        (ch as u32) < 0x80,
    ensures
        is_space(ch) <==> ch == ' ' || '\t' <= ch <= '\r',
{
}

/// The control characters are those below the blank and those from delete up to the end
/// of the second block. Letters, digits and the blank are none.
pub proof fn control_characters(ch: char)
    ensures
        (ch as u32) < 0x20 ==> is_control_char(ch),
        0x20 <= ch as u32 && (ch as u32) < 0x7f ==> !is_control_char(ch),
        0x7f <= ch as u32 && (ch as u32) < 0xa0 ==> is_control_char(ch),
        0xa0 <= ch as u32 ==> !is_control_char(ch),
{
}

/// A text is read as a number exactly where it is made of decimal digits alone and holds
/// at least one. A further digit counts for its own value and ten times what stands
/// before it.
pub proof fn digits_are_read(text: Seq<char>, digit: char)
    ensures
        digits_number(text) is Some <==> text.len() > 0 && (forall|i: int|
            0 <= i < text.len() ==> '0' <= #[trigger] text[i] <= '9'),
        '0' <= digit <= '9' ==> digits_number(seq![digit]) == Some(
            (digit as u32 - '0' as u32) as nat,
        ),
        '0' <= digit <= '9' && digits_number(text) is Some ==> digits_number(text.push(digit))
            == Some((digits_number(text)->0 * 10 + (digit as u32 - '0' as u32)) as nat),
{
    assert(seq![digit].drop_last() =~= Seq::<char>::empty());
    assert(seq![digit].last() == digit);
    assert(digits_value(Seq::<char>::empty()) == 0);
    if '0' <= digit <= '9' && digits_number(text) is Some {
        let longer = text.push(digit);
        assert(longer.drop_last() =~= text);
        assert forall|i: int| 0 <= i < longer.len() implies '0' <= #[trigger] longer[i] <= '9' by {
            if i < text.len() {
                assert(longer[i] == text[i]);
            }
        }
    }
}

} // verus!
