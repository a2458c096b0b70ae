//! Text primitives: comparison, ordering, decimal numerals, trimming and splitting.
//!
//! Every function speaks of a text as the sequence of its characters.
use vstd::prelude::*;
use vstd::string::*;

verus! {

/// Appends one character to a `String` (`String::push`).
pub assume_specification[ String::push ](text: &mut String, character: char)
    ensures
        final(text)@ == old(text)@.push(character),
;

/// Whether `character` is whitespace in the sense of the Unicode `White_Space` property.
pub open spec fn is_whitespace(character: char) -> bool {
    ||| 0x9 <= character as int <= 0xd
    ||| character as int == 0x20
    ||| character as int == 0x85
    ||| character as int == 0xa0
    ||| character as int == 0x1680
    ||| 0x2000 <= character as int <= 0x200a
    ||| character as int == 0x2028
    ||| character as int == 0x2029
    ||| character as int == 0x202f
    ||| character as int == 0x205f
    ||| character as int == 0x3000
}

/// `text` without its leading whitespace.
pub open spec fn without_leading(text: Seq<char>) -> Seq<char>
    decreases text.len(),
{
    if text.len() > 0 && is_whitespace(text.first()) {
        without_leading(text.drop_first())
    } else {
        text
    }
}

/// `text` without its trailing whitespace.
pub open spec fn without_trailing(text: Seq<char>) -> Seq<char>
    decreases text.len(),
{
    if text.len() > 0 && is_whitespace(text.last()) {
        without_trailing(text.drop_last())
    } else {
        text
    }
}

/// `text` without its leading and trailing whitespace.
pub open spec fn trimmed(text: Seq<char>) -> Seq<char> {
    without_trailing(without_leading(text))
}

/// Calls `str::trim`, which strips leading and trailing characters that have the Unicode
/// `White_Space` property.
#[verifier::external_body]
pub(crate) fn trim(text: &str) -> (result: &str)
    ensures
        result@ == trimmed(text@),
{
    text.trim()
}

/// The characters of a text, in order.
pub fn characters(text: &str) -> (result: Vec<char>)
    ensures
        result@ == text@,
{
    let mut result: Vec<char> = Vec::new();
    for character in it: text.chars()
        invariant
            it.seq() == text@,
            result@ == text@.take(it.index() as int),
    {
        proof {
            assert(text@.take(it.index() as int).push(character) =~= text@.take(it.index() + 1));
        }
        result.push(character);
    }
    proof {
        assert(text@.take(text@.len() as int) =~= text@);
    }
    result
}

/// The text spelled by a sequence of characters.
pub fn text_of(characters: &[char]) -> (result: String)
    ensures
        result@ == characters@,
{
    let mut result = String::new();
    let mut index: usize = 0;
    while index < characters.len()
        invariant
            index <= characters@.len(),
            result@ == characters@.take(index as int),
        decreases characters@.len() - index,
    {
        proof {
            assert(characters@.take(index as int).push(characters@[index as int])
                =~= characters@.take(index + 1));
        }
        result.push(characters[index]);
        index = index + 1;
    }
    proof {
        assert(characters@.take(characters@.len() as int) =~= characters@);
    }
    result
}

/// Whether two texts are equal.
pub fn same_text(left: &str, right: &str) -> (result: bool)
    ensures
        result == (left@ == right@),
{
    let left_bytes = left.as_bytes();
    let right_bytes = right.as_bytes();
    proof {
        vstd::utf8::encode_utf8_decode_utf8(left@);
        vstd::utf8::encode_utf8_decode_utf8(right@);
    }
    if left_bytes.len() != right_bytes.len() {
        return false;
    }
    let mut index: usize = 0;
    while index < left_bytes.len()
        invariant
            index <= left_bytes@.len(),
            left_bytes@.len() == right_bytes@.len(),
            left_bytes@ == left.spec_bytes(),
            right_bytes@ == right.spec_bytes(),
            left_bytes@.take(index as int) == right_bytes@.take(index as int),
        decreases left_bytes@.len() - index,
    {
        if left_bytes[index] != right_bytes[index] {
            return false;
        }
        proof {
            assert(left_bytes@.take(index + 1) =~= left_bytes@.take(index as int).push(
                left_bytes@[index as int],
            ));
            assert(right_bytes@.take(index + 1) =~= right_bytes@.take(index as int).push(
                right_bytes@[index as int],
            ));
        }
        index = index + 1;
    }
    proof {
        assert(left_bytes@.take(index as int) =~= left_bytes@);
        assert(right_bytes@.take(index as int) =~= right_bytes@);
    }
    true
}

/// Whether `left` precedes `right` in the lexicographic order by code points, which is also
/// the order of the UTF-8 encodings.
pub open spec fn text_before(left: Seq<char>, right: Seq<char>) -> bool
    decreases left.len(),
{
    if right.len() == 0 {
        false
    } else if left.len() == 0 {
        true
    } else if left[0] == right[0] {
        text_before(left.drop_first(), right.drop_first())
    } else {
        (left[0] as int) < (right[0] as int)
    }
}

/// Whether `left` precedes `right` in the order of code points.
pub fn precedes(left: &str, right: &str) -> (result: bool)
    ensures
        result == text_before(left@, right@),
{
    let left_characters = characters(left);
    let right_characters = characters(right);
    let mut index: usize = 0;
    proof {
        assert(left@.skip(0) =~= left@);
        assert(right@.skip(0) =~= right@);
    }
    while index < left_characters.len() && index < right_characters.len()
        invariant
            index <= left_characters@.len(),
            index <= right_characters@.len(),
            left_characters@ == left@,
            right_characters@ == right@,
            text_before(left@, right@) == text_before(
                left@.skip(index as int),
                right@.skip(index as int),
            ),
        decreases left_characters@.len() - index,
    {
        proof {
            assert(left@.skip(index as int).drop_first() =~= left@.skip(index + 1));
            assert(right@.skip(index as int).drop_first() =~= right@.skip(index + 1));
        }
        let left_character = left_characters[index];
        let right_character = right_characters[index];
        if left_character != right_character {
            return left_character < right_character;
        }
        index = index + 1;
    }
    index < right_characters.len()
}

/// The order of code points is asymmetric and irreflexive.
pub proof fn lemma_text_order_asymmetric(left: Seq<char>, right: Seq<char>)
    ensures
        text_before(left, right) ==> !text_before(right, left) && left != right,
    decreases left.len(),
{
    if left.len() > 0 && right.len() > 0 {
        lemma_text_order_asymmetric(left.drop_first(), right.drop_first());
    }
}

/// The order of code points is transitive.
pub proof fn lemma_text_order_transitive(a: Seq<char>, b: Seq<char>, c: Seq<char>)
    requires
        text_before(a, b),
        text_before(b, c),
    ensures
        text_before(a, c),
    decreases a.len(),
{
    if a.len() > 0 && b.len() > 0 && c.len() > 0 {
        if a[0] == b[0] && b[0] == c[0] {
            lemma_text_order_transitive(a.drop_first(), b.drop_first(), c.drop_first());
        }
    }
}

/// Of two different texts one precedes the other.
pub proof fn lemma_text_order_total(left: Seq<char>, right: Seq<char>)
    ensures
        left == right || text_before(left, right) || text_before(right, left),
    decreases left.len(),
{
    if left.len() > 0 && right.len() > 0 {
        if left[0] == right[0] {
            lemma_text_order_total(left.drop_first(), right.drop_first());
            assert(left =~= seq![left[0]] + left.drop_first());
            assert(right =~= seq![right[0]] + right.drop_first());
        }
    } else if left.len() == 0 && right.len() == 0 {
        assert(left =~= right);
    }
}

/// The decimal digit that spells `value`.
pub open spec fn digit(value: nat) -> char {
    (('0' as u32) + value) as char
}

/// The decimal numeral of a natural number, without leading zeros.
pub open spec fn decimal(value: nat) -> Seq<char>
    decreases value,
{
    if value < 10 {
        seq![digit(value)]
    } else {
        decimal(value / 10).push(digit(value % 10))
    }
}

/// The decimal numeral of an integer.
pub open spec fn signed_decimal(value: int) -> Seq<char> {
    if value < 0 {
        "-"@ + decimal((-value) as nat)
    } else {
        decimal(value as nat)
    }
}

/// The decimal numeral of a natural number, padded with a zero to two digits.
pub open spec fn two_digits(value: nat) -> Seq<char> {
    if value < 10 {
        "0"@ + decimal(value)
    } else {
        decimal(value)
    }
}

fn numeral(value: u64) -> (result: char)
    requires
        value < 10,
    ensures
        result == digit(value as nat),
{
    (48u8 + (value as u8)) as char
}

/// Spells a number in decimal.
pub fn decimal_text(value: u64) -> (result: String)
    ensures
        result@ == decimal(value as nat),
    decreases value,
{
    if value < 10 {
        let mut result = String::new();
        result.push(numeral(value));
        proof {
            assert(result@ =~= seq![digit(value as nat)]);
        }
        result
    } else {
        let mut result = decimal_text(value / 10);
        result.push(numeral(value % 10));
        result
    }
}

/// Spells an integer in decimal.
pub fn signed_decimal_text(value: i64) -> (result: String)
    ensures
        result@ == signed_decimal(value as int),
{
    if value < 0 {
        let magnitude: u64 = (-(value as i128)) as u64;
        let mut result = "-".to_owned();
        result.append(decimal_text(magnitude).as_str());
        result
    } else {
        decimal_text(value as u64)
    }
}

/// Spells a number in decimal with at least two digits.
pub fn two_digit_text(value: u64) -> (result: String)
    ensures
        result@ == two_digits(value as nat),
{
    if value < 10 {
        let mut result = "0".to_owned();
        result.append(decimal_text(value).as_str());
        result
    } else {
        decimal_text(value)
    }
}

/// Texts one after another, with a separator between each two.
pub open spec fn joined(parts: Seq<Seq<char>>, separator: Seq<char>) -> Seq<char>
    decreases parts.len(),
{
    if parts.len() == 0 {
        seq![]
    } else if parts.len() == 1 {
        parts[0]
    } else {
        joined(parts.drop_last(), separator) + separator + parts.last()
    }
}

/// The characters of each of several texts.
pub open spec fn texts(parts: Seq<String>) -> Seq<Seq<char>> {
    parts.map_values(|part: String| part@)
}

/// Joins texts with a separator between each two.
pub fn join(parts: &Vec<String>, separator: &str) -> (result: String)
    ensures
        result@ == joined(texts(parts@), separator@),
{
    if parts.len() == 0 {
        let result = String::new();
        proof {
            assert(result@ =~= seq![]);
        }
        return result;
    }
    let mut result = parts[0].clone();
    let mut index: usize = 1;
    proof {
        assert(texts(parts@).take(1).len() == 1);
        assert(texts(parts@).take(1)[0] == parts@[0]@);
    }
    while index < parts.len()
        invariant
            1 <= index <= parts@.len(),
            result@ == joined(texts(parts@).take(index as int), separator@),
        decreases parts@.len() - index,
    {
        proof {
            assert(texts(parts@).take(index + 1).drop_last() =~= texts(parts@).take(index as int));
            assert(texts(parts@).take(index + 1).last() == parts@[index as int]@);
        }
        result.append(separator);
        result.append(parts[index].as_str());
        index = index + 1;
    }
    proof {
        assert(texts(parts@).take(index as int) =~= texts(parts@));
    }
    result
}

/// Whether a text begins with another.
pub open spec fn begins(text: Seq<char>, prefix: Seq<char>) -> bool {
    text.len() >= prefix.len() && text.take(prefix.len() as int) == prefix
}

/// Whether a text begins with another.
pub fn starts_with(text: &str, prefix: &str) -> (result: bool)
    ensures
        result == begins(text@, prefix@),
{
    let length: usize = prefix.unicode_len();
    if text.unicode_len() < length {
        return false;
    }
    let head = text.substring_char(0, length);
    proof {
        assert(head@ =~= text@.take(length as int));
    }
    same_text(head, prefix)
}

/// Whether a character is a decimal digit.
pub open spec fn is_digit(character: char) -> bool {
    '0' <= character <= '9'
}

/// The value of a decimal digit.
pub open spec fn digit_value(character: char) -> int {
    character as int - '0' as int
}

/// The value of a decimal digit.
pub fn digit_of(character: char) -> (value: Option<u16>)
    ensures
        match value {
            Some(value) => is_digit(character) && value == digit_value(character),
            None => !is_digit(character),
        },
        value matches Some(digit) ==> digit <= 9,
{
    if character >= '0' && character <= '9' {
        Some((character as u32 - 48) as u16)
    } else {
        None
    }
}

/// Whether a text consists of decimal digits, of at least one.
pub open spec fn all_digits(text: Seq<char>) -> bool {
    text.len() > 0 && forall|i: int| 0 <= i < text.len() ==> is_digit(#[trigger] text[i])
}

/// The number that decimal digits spell.
pub open spec fn digits_value(text: Seq<char>) -> int
    decreases text.len(),
{
    if text.len() == 0 {
        0
    } else {
        digits_value(text.drop_last()) * 10 + digit_value(text.last())
    }
}

/// A numeral without the plus sign that may stand before it.
pub open spec fn unsigned_part(text: Seq<char>) -> Seq<char> {
    if text.len() > 0 && text[0] == '+' {
        text.drop_first()
    } else {
        text
    }
}

/// The number that a text spells in decimal, where sixty-four bits hold it.
pub open spec fn number_of(text: Seq<char>) -> Option<u64> {
    let digits = unsigned_part(text);
    if all_digits(digits) && digits_value(digits) <= u64::MAX {
        Some(digits_value(digits) as u64)
    } else {
        None
    }
}

proof fn lemma_digits_grow(text: Seq<char>, count: int)
    requires
        0 <= count <= text.len(),
        forall|i: int| 0 <= i < text.len() ==> is_digit(#[trigger] text[i]),
    ensures
        0 <= digits_value(text.take(count)) <= digits_value(text),
    decreases text.len(),
{
    if count < text.len() {
        let front = text.drop_last();
        assert forall|i: int| 0 <= i < front.len() implies is_digit(#[trigger] front[i]) by {
            assert(text[i] == front[i]);
        }
        lemma_digits_grow(front, count);
        assert(front.take(count) =~= text.take(count));
        assert(is_digit(text[text.len() - 1]));
    } else {
        assert(text.take(count) =~= text);
        if text.len() > 0 {
            let front = text.drop_last();
            assert forall|i: int| 0 <= i < front.len() implies is_digit(#[trigger] front[i]) by {
                assert(text[i] == front[i]);
            }
            lemma_digits_grow(front, 0);
            assert(is_digit(text[text.len() - 1]));
        }
    }
}

/// The number that a text spells in decimal, where sixty-four bits hold it.
pub fn parse_number(text: &str) -> (result: Option<u64>)
    ensures
        result == number_of(text@),
{
    let letters = characters(text);
    let start: usize = if letters.len() > 0 && letters[0] == '+' {
        1
    } else {
        0
    };
    let ghost digits = unsigned_part(text@);
    proof {
        assert(digits =~= text@.skip(start as int));
    }
    if letters.len() == start {
        return None;
    }
    let mut value: u64 = 0;
    let mut index: usize = start;
    proof {
        assert(digits.take(0) =~= seq![]);
    }
    while index < letters.len()
        invariant
            start <= index <= letters@.len(),
            start < letters@.len(),
            letters@ == text@,
            digits == unsigned_part(text@),
            digits == text@.skip(start as int),
            forall|i: int| 0 <= i < index - start ==> is_digit(#[trigger] digits[i]),
            value == digits_value(digits.take(index - start)),
        decreases letters@.len() - index,
    {
        let ghost k = index - start;
        proof {
            assert(digits[k] == letters@[index as int]);
            assert(digits.take(k + 1).drop_last() =~= digits.take(k));
            assert(digits.take(k + 1).last() == digits[k]);
        }
        match digit_of(letters[index]) {
            Some(digit) => {
                let wide: u128 = value as u128 * 10 + digit as u128;
                if wide > u64::MAX as u128 {
                    proof {
                        if all_digits(digits) {
                            lemma_digits_grow(digits, k + 1);
                        }
                    }
                    return None;
                }
                value = wide as u64;
            },
            None => return None,
        }
        index = index + 1;
    }
    proof {
        assert(digits.take(index - start) =~= digits);
    }
    Some(value)
}

/// A numeral spells its number, in digits alone.
pub proof fn law_numeral_spells_number(value: nat)
    ensures
        all_digits(decimal(value)),
        digits_value(decimal(value)) == value,
    decreases value,
{
    if value < 10 {
        let text = decimal(value);
        assert(text.drop_last() =~= seq![]);
        assert(digits_value(text.drop_last()) == 0);
    } else {
        law_numeral_spells_number(value / 10);
        let text = decimal(value);
        assert(text.drop_last() =~= decimal(value / 10));
        assert forall|i: int| 0 <= i < text.len() implies is_digit(#[trigger] text[i]) by {
            if i < text.len() - 1 {
                assert(text[i] == decimal(value / 10)[i]);
            }
        }
    }
}

/// A number is read back from its numeral.
pub proof fn law_numeral_reads_back(value: u64)
    ensures
        number_of(decimal(value as nat)) == Some(value),
{
    law_numeral_spells_number(value as nat);
    let text = decimal(value as nat);
    assert(is_digit(text[0]));
    assert(unsigned_part(text) == text);
}

/// The smallest number whose numeral has more than `count` digits.
pub open spec fn power_of_ten(count: nat) -> nat
    decreases count,
{
    if count == 0 {
        1
    } else {
        10 * power_of_ten((count - 1) as nat)
    }
}

/// A numeral has as many digits as its number needs.
pub proof fn lemma_numeral_length(value: nat, count: nat)
    requires
        count > 0,
        value < power_of_ten(count),
    ensures
        0 < decimal(value).len() <= count,
    decreases count,
{
    if value >= 10 {
        if count == 1 {
            assert(power_of_ten(1) == 10 * power_of_ten(0));
        } else {
            lemma_numeral_length(value / 10, (count - 1) as nat);
        }
    }
}

/// Trimming takes nothing but space from either end of a text, and leaves none there.
pub proof fn law_trimming_takes_space_alone(text: Seq<char>)
    ensures
        ({
            let kept = trimmed(text);
            &&& kept.len() > 0 ==> !is_whitespace(kept[0]) && !is_whitespace(kept.last())
            &&& exists|start: int|
                0 <= start && start + kept.len() <= text.len() && kept == #[trigger] text.subrange(
                    start,
                    start + kept.len(),
                ) && (forall|i: int| 0 <= i < start ==> is_whitespace(#[trigger] text[i])) && (
                forall|i: int|
                    start + kept.len() <= i < text.len() ==> is_whitespace(#[trigger] text[i]))
        }),
{
    let start = lemma_leading(text);
    let rest = without_leading(text);
    lemma_trailing(rest);
    let kept = trimmed(text);
    assert(kept =~= text.subrange(start, start + kept.len()));
    assert forall|i: int| start + kept.len() <= i < text.len() implies is_whitespace(
        #[trigger] text[i],
    ) by {
        assert(rest[i - start] == text[i]);
    }
    if kept.len() > 0 {
        assert(kept[0] == rest[0]);
    }
}

proof fn lemma_leading(text: Seq<char>) -> (start: int)
    ensures
        0 <= start <= text.len(),
        without_leading(text) == text.skip(start),
        forall|i: int| 0 <= i < start ==> is_whitespace(#[trigger] text[i]),
        start < text.len() ==> !is_whitespace(text[start]),
    decreases text.len(),
{
    if text.len() > 0 && is_whitespace(text.first()) {
        let rest = text.drop_first();
        let start = lemma_leading(rest);
        assert(text.skip(start + 1) =~= rest.skip(start));
        assert forall|i: int| 0 <= i < start + 1 implies is_whitespace(#[trigger] text[i]) by {
            if i > 0 {
                assert(rest[i - 1] == text[i]);
            }
        }
        start + 1
    } else {
        assert(text.skip(0) =~= text);
        0
    }
}

proof fn lemma_trailing(text: Seq<char>)
    ensures
        without_trailing(text).len() <= text.len(),
        without_trailing(text) == text.take(without_trailing(text).len() as int),
        forall|i: int|
            without_trailing(text).len() <= i < text.len() ==> is_whitespace(#[trigger] text[i]),
        without_trailing(text).len() > 0 ==> !is_whitespace(without_trailing(text).last()),
    decreases text.len(),
{
    if text.len() > 0 && is_whitespace(text.last()) {
        let front = text.drop_last();
        lemma_trailing(front);
        let count = without_trailing(text).len() as int;
        assert(text.take(count) =~= front.take(count));
        assert forall|i: int| count <= i < text.len() implies is_whitespace(#[trigger] text[i]) by {
            if i < front.len() {
                assert(front[i] == text[i]);
            }
        }
    } else {
        assert(text.take(text.len() as int) =~= text);
    }
}

/// Texts are ordered by the first character in which they differ, and one that another begins with
/// comes before it.
pub proof fn law_texts_are_ordered_by_characters(
    left: Seq<char>,
    right: Seq<char>,
    common: int,
)
    requires
        0 <= common <= left.len(),
        common <= right.len(),
        forall|i: int| 0 <= i < common ==> #[trigger] left[i] == right[i],
        common < left.len() && common < right.len() ==> left[common] != right[common],
    ensures
        text_before(left, right) <==> if common < left.len() && common < right.len() {
            (left[common] as int) < (right[common] as int)
        } else {
            left.len() < right.len()
        },
    decreases common,
{
    if common > 0 {
        let first = left.drop_first();
        let second = right.drop_first();
        assert(left[0] == right[0]);
        assert forall|i: int| 0 <= i < common - 1 implies #[trigger] first[i] == second[i] by {
            assert(left[i + 1] == right[i + 1]);
        }
        law_texts_are_ordered_by_characters(first, second, common - 1);
    }
}

/// Texts are joined with the separator between any two of them, and none at either end.
pub proof fn law_joining_separates(parts: Seq<Seq<char>>, last: Seq<char>, separator: Seq<char>)
    ensures
        joined(seq![last], separator) == last,
        parts.len() > 0 ==> joined(parts.push(last), separator) == joined(parts, separator)
            + separator + last,
        joined(seq![], separator).len() == 0,
{
    assert(parts.push(last).drop_last() =~= parts);
}

/// A number is spelled with two digits where one would do, behind a zero.
pub proof fn law_two_digits(value: nat)
    requires
        value < 100,
    ensures
        two_digits(value).len() == 2,
        two_digits(value)[0] as int == '0' as int + value / 10,
        two_digits(value)[1] as int == '0' as int + value % 10,
{
    reveal_strlit("0");
    reveal_with_fuel(decimal, 3);
}

/// A number is read from its decimal digits, with a plus sign before them or without: each further
/// digit counts ten times what stands before it. Any other character, and a text without digits,
/// is no number.
pub proof fn law_numbers_are_read(text: Seq<char>, next: char, i: int)
    requires
        '0' <= next <= '9',
    ensures
        number_of(text) is Some && number_of(text)->0 * 10 + (next as int - '0' as int) <= u64::MAX
            ==> number_of(text.push(next)) == Some(
            (number_of(text)->0 * 10 + (next as int - '0' as int)) as u64,
        ),
        number_of(seq![next]) == Some((next as int - '0' as int) as u64),
        text.len() > 0 && text[0] != '+' ==> number_of(seq!['+'] + text) == number_of(text),
        number_of(seq![]) is None,
        number_of(seq!['+']) is None,
        0 <= i < text.len() && !('0' <= text[i] <= '9') && !(i == 0 && text[i] == '+')
            ==> number_of(text) is None,
{
    let digits = unsigned_part(text);
    let longer = text.push(next);
    reveal_with_fuel(digits_value, 2);
    assert(seq![next].drop_last() =~= seq![]);
    assert(unsigned_part(seq![next]) == seq![next]);
    assert((seq!['+'] + text).drop_first() =~= text);
    assert(seq!['+'].drop_first() =~= seq![]);
    if number_of(text) is Some {
        lemma_digits_grow(digits, 0);
        assert(digits.take(0).len() == 0);
        assert(unsigned_part(longer) =~= digits.push(next));
        assert(digits.push(next).drop_last() =~= digits);
        assert forall|j: int| 0 <= j < digits.push(next).len() implies is_digit(
            #[trigger] digits.push(next)[j],
        ) by {
            if j < digits.len() {
                assert(is_digit(digits[j]));
            }
        }
    }
    if 0 <= i < text.len() && !('0' <= text[i] <= '9') && !(i == 0 && text[i] == '+') {
        if text[0] == '+' {
            assert(digits[i - 1] == text[i]);
        } else {
            assert(digits[i] == text[i]);
        }
    }
}

/// A negative number is spelled with a minus sign before its absolute value.
pub proof fn law_negative_numbers_have_a_sign(value: nat)
    ensures
        signed_decimal(value as int) == decimal(value),
        value > 0 ==> signed_decimal(-(value as int)) == "-"@ + decimal(value),
{
}

} // verus!
