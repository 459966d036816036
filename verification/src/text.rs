//! Text building blocks: trimming, case folding, ordering, decimal numbers and
//! joins. The model of a text is its sequence of characters.

use vstd::prelude::*;

verus! {

// ---------------------------------------------------------------------------
// White space
// ---------------------------------------------------------------------------

/// The characters with the Unicode `White_Space` property.
pub open spec fn white_space(c: char) -> bool {
    let code = c as u32;
    ||| 0x9 <= code <= 0xd
    ||| code == 0x20
    ||| code == 0x85
    ||| code == 0xa0
    ||| code == 0x1680
    ||| 0x2000 <= code <= 0x200a
    ||| code == 0x2028
    ||| code == 0x2029
    ||| code == 0x202f
    ||| code == 0x205f
    ||| code == 0x3000
}

/// `text` without its leading white space.
pub open spec fn trimmed_front(text: Seq<char>) -> Seq<char>
    decreases text.len(),
{
    if text.len() > 0 && white_space(text[0]) {
        trimmed_front(text.drop_first())
    } else {
        text
    }
}

/// `text` without its trailing white space.
pub open spec fn trimmed_back(text: Seq<char>) -> Seq<char>
    decreases text.len(),
{
    if text.len() > 0 && white_space(text.last()) {
        trimmed_back(text.drop_last())
    } else {
        text
    }
}

/// `text` without leading and trailing white space.
pub open spec fn trimmed(text: Seq<char>) -> Seq<char> {
    trimmed_back(trimmed_front(text))
}

/// Calls `str::trim`, which drops every leading and every trailing character
/// that has the Unicode `White_Space` property and keeps the rest.
#[verifier::external_body]
pub(crate) fn trim(text: &str) -> (rest: &str)
    ensures
        rest@ == trimmed(text@),
{
    text.trim()
}

/// The text of a tag that counts as filled in: the trimmed value, unless
/// nothing is left of it.
pub open spec fn filled(value: Option<Seq<char>>) -> Option<Seq<char>> {
    match value {
        Some(text) if trimmed(text).len() > 0 => Some(trimmed(text)),
        _ => None,
    }
}

/// A text is absent, or nothing but white space.
pub open spec fn blank(value: Option<Seq<char>>) -> bool {
    value matches Some(text) ==> forall|i: int|
        0 <= i < text.len() ==> white_space(#[trigger] text[i])
}

/// The trimmed text of `value`, or `None` when it is absent or blank.
pub fn non_empty_text(value: &Option<String>) -> (result: Option<String>)
    ensures
        result.deep_view() == filled(value.deep_view()),
{
    match value {
        Some(text) => {
            let rest = trim(text.as_str());
            if rest.is_empty() {
                None
            } else {
                Some(rest.to_owned())
            }
        },
        None => None,
    }
}

// ---------------------------------------------------------------------------
// Case folding
// ---------------------------------------------------------------------------

/// What `str::to_lowercase` returns for `text`.
pub uninterp spec fn lowercase(text: Seq<char>) -> Seq<char>;

/// Calls `str::to_lowercase`: the Unicode lower case of the text, which
/// depends on the text alone.
#[verifier::external_body]
pub(crate) fn to_lowercase(text: &str) -> (lower: String)
    ensures
        lower@ == lowercase(text@),
{
    text.to_lowercase()
}

/// The upper case of an ASCII letter; any other character stays.
pub open spec fn ascii_upper(c: char) -> char {
    if 'a' <= c && c <= 'z' {
        ((c as u32) - 32) as char
    } else {
        c
    }
}

/// The upper case of an ASCII letter as a text of its own.
fn upper_letter(letter: char) -> (upper: &'static str)
    requires
        'a' <= letter <= 'z',
    ensures
        upper@ == seq![ascii_upper(letter)],
{
    let letters = "ABCDEFGHIJKLMNOPQRSTUVWXYZ";
    proof {
        reveal_strlit("ABCDEFGHIJKLMNOPQRSTUVWXYZ");
    }
    let place: usize = (letter as u32 - 97) as usize;
    let upper = letters.substring_char(place, place + 1);
    assert(upper@ =~= seq![ascii_upper(letter)]);
    upper
}

/// The text with its ASCII letters `a` to `z` as `A` to `Z`; the other
/// characters stay.
pub fn to_ascii_uppercase(text: &str) -> (upper: String)
    ensures
        upper@ == Seq::new(text@.len(), |i: int| ascii_upper(text@[i])),
{
    let mut upper = String::new();
    let len: usize = text.unicode_len();
    let mut index: usize = 0;
    while index < len
        invariant
            index <= len,
            len == text@.len(),
            upper@ == Seq::new(index as nat, |i: int| ascii_upper(text@[i])),
        decreases len - index,
    {
        let letter = text.get_char(index);
        if 'a' <= letter && letter <= 'z' {
            upper.append(upper_letter(letter));
        } else {
            upper.append(text.substring_char(index, index + 1));
        }
        index = index + 1;
        assert(upper@ =~= Seq::new(index as nat, |i: int| ascii_upper(text@[i])));
    }
    upper
}

// ---------------------------------------------------------------------------
// Order
// ---------------------------------------------------------------------------

/// How one value stands to another.
#[derive(Clone, Copy, Debug, PartialEq, Eq, Structural)]
pub enum Order {
    Before,
    Same,
    After,
}

/// The dictionary order of two texts by code point.
pub open spec fn text_order(left: Seq<char>, right: Seq<char>) -> Order
    decreases left.len(),
{
    if left.len() == 0 {
        if right.len() == 0 {
            Order::Same
        } else {
            Order::Before
        }
    } else if right.len() == 0 {
        Order::After
    } else if (left[0] as u32) < (right[0] as u32) {
        Order::Before
    } else if (left[0] as u32) > (right[0] as u32) {
        Order::After
    } else {
        text_order(left.drop_first(), right.drop_first())
    }
}

/// Compares two texts in dictionary order.
pub fn order_texts(left: &str, right: &str) -> (order: Order)
    ensures
        order == text_order(left@, right@),
{
    let mut left_rest = left.chars();
    let mut right_rest = right.chars();
    loop
        invariant
            text_order(left@, right@) == text_order(
                vstd::std_specs::iter::IteratorSpec::remaining(&left_rest),
                vstd::std_specs::iter::IteratorSpec::remaining(&right_rest),
            ),
            vstd::std_specs::iter::IteratorSpec::decrease(&left_rest) is Some,
        decreases vstd::std_specs::iter::IteratorSpec::decrease(&left_rest)->0,
    {
        match (left_rest.next(), right_rest.next()) {
            (None, None) => return Order::Same,
            (None, Some(_)) => return Order::Before,
            (Some(_), None) => return Order::After,
            (Some(a), Some(b)) => {
                if (a as u32) < (b as u32) {
                    return Order::Before;
                }
                if (a as u32) > (b as u32) {
                    return Order::After;
                }
            },
        }
    }
}

/// A character is told by its code point.
proof fn lemma_code_point_tells(a: char, b: char)
    ensures
        a as u32 == b as u32 ==> a == b,
{
}

/// Texts that stand in the same place are the same text.
pub proof fn lemma_text_order_same(left: Seq<char>, right: Seq<char>)
    ensures
        text_order(left, right) == Order::Same <==> left == right,
    decreases left.len(),
{
    if left.len() > 0 && right.len() > 0 {
        lemma_text_order_same(left.drop_first(), right.drop_first());
        lemma_code_point_tells(left[0], right[0]);
        if left[0] == right[0] && left.drop_first() == right.drop_first() {
            assert(left == seq![left[0]] + left.drop_first());
            assert(right == seq![right[0]] + right.drop_first());
        }
    } else if left.len() == right.len() {
        assert(left =~= right);
    }
}

/// Swapping two texts swaps their order.
pub proof fn lemma_text_order_swap(left: Seq<char>, right: Seq<char>)
    ensures
        text_order(left, right) == Order::Before <==> text_order(right, left) == Order::After,
    decreases left.len(),
{
    if left.len() > 0 && right.len() > 0 {
        lemma_text_order_swap(left.drop_first(), right.drop_first());
    }
}

/// The dictionary order is transitive, and strict where one step is.
pub proof fn lemma_text_order_chain(a: Seq<char>, b: Seq<char>, c: Seq<char>)
    requires
        text_order(a, b) != Order::After,
        text_order(b, c) != Order::After,
    ensures
        text_order(a, c) != Order::After,
        text_order(a, c) == Order::Same ==> a == b && b == c,
    decreases a.len(),
{
    lemma_text_order_same(a, b);
    lemma_text_order_same(b, c);
    if a.len() > 0 && b.len() > 0 && c.len() > 0 {
        if a[0] as u32 == b[0] as u32 && b[0] as u32 == c[0] as u32 {
            lemma_text_order_chain(a.drop_first(), b.drop_first(), c.drop_first());
            lemma_text_order_same(a.drop_first(), b.drop_first());
            lemma_text_order_same(b.drop_first(), c.drop_first());
        }
    }
}

// ---------------------------------------------------------------------------
// Decimal numbers
// ---------------------------------------------------------------------------

/// The decimal digit of `n`, for `n` below ten.
pub open spec fn digit(n: nat) -> char {
    (('0' as u32 + n) as u32) as char
}

/// The decimal digits of `n`, without leading zeros.
pub open spec fn decimal(n: nat) -> Seq<char>
    decreases n,
{
    if n < 10 {
        seq![digit(n)]
    } else {
        decimal(n / 10).push(digit(n % 10))
    }
}

/// The decimal digits of `n`, with a leading minus sign when it is negative.
pub open spec fn signed_decimal(n: int) -> Seq<char> {
    if n < 0 {
        "-"@ + decimal((-n) as nat)
    } else {
        decimal(n as nat)
    }
}

/// The decimal digits of `n`, with a leading zero when there is only one.
pub open spec fn two_digits(n: nat) -> Seq<char> {
    if n < 10 {
        "0"@ + decimal(n)
    } else {
        decimal(n)
    }
}

fn digit_text(n: u64) -> (text: &'static str)
    requires
        n < 10,
    ensures
        text@ == seq![digit(n as nat)],
{
    proof {
        reveal_strlit("0");
        reveal_strlit("1");
        reveal_strlit("2");
        reveal_strlit("3");
        reveal_strlit("4");
        reveal_strlit("5");
        reveal_strlit("6");
        reveal_strlit("7");
        reveal_strlit("8");
        reveal_strlit("9");
    }
    let text = if n == 0 {
        "0"
    } else if n == 1 {
        "1"
    } else if n == 2 {
        "2"
    } else if n == 3 {
        "3"
    } else if n == 4 {
        "4"
    } else if n == 5 {
        "5"
    } else if n == 6 {
        "6"
    } else if n == 7 {
        "7"
    } else if n == 8 {
        "8"
    } else {
        "9"
    };
    assert(text@ =~= seq![digit(n as nat)]);
    text
}

/// Appends the decimal digits of `n`.
pub fn push_decimal(out: &mut String, n: u64)
    ensures
        final(out)@ == old(out)@ + decimal(n as nat),
    decreases n,
{
    if n >= 10 {
        push_decimal(out, n / 10);
    }
    out.append(digit_text(n % 10));
    assert(out@ =~= old(out)@ + decimal(n as nat));
}

/// Appends the decimal digits of `n`, with its sign when it is negative.
pub fn push_signed(out: &mut String, n: i64)
    ensures
        final(out)@ == old(out)@ + signed_decimal(n as int),
{
    if n < 0 {
        out.append("-");
        let magnitude: u64 = if n == i64::MIN {
            0x8000_0000_0000_0000
        } else {
            (-n) as u64
        };
        push_decimal(out, magnitude);
        assert(out@ =~= old(out)@ + signed_decimal(n as int));
    } else {
        push_decimal(out, n as u64);
    }
}

/// Appends `n` with at least two digits.
pub fn push_two_digits(out: &mut String, n: u64)
    ensures
        final(out)@ == old(out)@ + two_digits(n as nat),
{
    if n < 10 {
        out.append("0");
    }
    push_decimal(out, n);
    assert(out@ =~= old(out)@ + two_digits(n as nat));
}

/// The decimal digits of `n` as a text of its own.
pub fn decimal_text(n: u64) -> (text: String)
    ensures
        text@ == decimal(n as nat),
{
    let mut text = String::new();
    push_decimal(&mut text, n);
    assert(text@ =~= decimal(n as nat));
    text
}

// ---------------------------------------------------------------------------
// Durations
// ---------------------------------------------------------------------------

/// Minutes and seconds, however many minutes there are.
pub open spec fn minutes_text(seconds: nat) -> Seq<char> {
    decimal(seconds / 60) + ":"@ + two_digits(seconds % 60)
}

/// Minutes and seconds, however many minutes there are.
pub fn format_minutes(seconds: u64) -> (text: String)
    ensures
        text@ == minutes_text(seconds as nat),
{
    let mut text = String::new();
    push_decimal(&mut text, seconds / 60);
    text.append(":");
    push_two_digits(&mut text, seconds % 60);
    assert(text@ =~= minutes_text(seconds as nat));
    text
}

// ---------------------------------------------------------------------------
// Joins
// ---------------------------------------------------------------------------

/// The texts of `parts` one after the other, with `separator` between them.
pub open spec fn joined(parts: Seq<Seq<char>>, separator: Seq<char>) -> Seq<char>
    decreases parts.len(),
{
    if parts.len() == 0 {
        Seq::empty()
    } else if parts.len() == 1 {
        parts[0]
    } else {
        joined(parts.drop_last(), separator) + separator + parts.last()
    }
}

/// Joins `parts` with `separator` between them.
pub fn join(parts: &[String], separator: &str) -> (text: String)
    ensures
        text@ == joined(parts.deep_view(), separator@),
{
    let mut text = String::new();
    let mut index: usize = 0;
    while index < parts.len()
        invariant
            index <= parts.len(),
            text@ == joined(parts.deep_view().take(index as int), separator@),
        decreases parts.len() - index,
    {
        if index > 0 {
            text.append(separator);
        }
        text.append(parts[index].as_str());
        proof {
            let next = parts.deep_view().take(index as int + 1);
            assert(next.drop_last() =~= parts.deep_view().take(index as int));
            assert(next.last() == parts[index as int]@);
            assert(text@ =~= joined(next, separator@));
        }
        index = index + 1;
    }
    assert(parts.deep_view().take(index as int) =~= parts.deep_view());
    text
}

/// What trimming leaves of a text that is not blank starts and ends with no
/// white space, and what it drops is white space; a blank text is left empty.
pub proof fn law_trimming_leaves_a_text_unless_it_is_blank(text: Seq<char>)
    ensures
        trimmed(text).len() == 0 <==> forall|i: int|
            0 <= i < text.len() ==> white_space(#[trigger] text[i]),
        trimmed(text).len() > 0 ==> !white_space(trimmed(text)[0]) && !white_space(
            trimmed(text).last(),
        ),
        exists|front: int, back: int|
            #![trigger text.subrange(front, back)]
            0 <= front <= back <= text.len() && trimmed(text) == text.subrange(front, back)
                && (forall|i: int|
                (0 <= i < front || back <= i < text.len()) ==> white_space(#[trigger] text[i])),
{
    let front = lemma_trimmed_front(text);
    let rest = trimmed_front(text);
    let kept = lemma_trimmed_back(rest);
    let back = front + kept;
    assert(trimmed(text) =~= text.subrange(front, back));
    assert forall|i: int| back <= i < text.len() implies white_space(#[trigger] text[i]) by {
        assert(text[i] == rest[i - front]);
    }
    if kept > 0 {
        assert(trimmed(text).last() == text[back - 1]);
        assert(rest[0] == text[front]);
        assert(trimmed(text)[0] == text[front]);
    }
}

/// Trimming the front drops so many characters of white space.
proof fn lemma_trimmed_front(text: Seq<char>) -> (front: int)
    ensures
        0 <= front <= text.len(),
        trimmed_front(text) == text.subrange(front, text.len() as int),
        forall|i: int| 0 <= i < front ==> white_space(#[trigger] text[i]),
        front < text.len() ==> !white_space(text[front]),
    decreases text.len(),
{
    if text.len() > 0 && white_space(text[0]) {
        let rest = text.drop_first();
        let front = lemma_trimmed_front(rest);
        assert(trimmed_front(text) =~= text.subrange(front + 1, text.len() as int));
        assert forall|i: int| 0 <= i < front + 1 implies white_space(#[trigger] text[i]) by {
            if i > 0 {
                assert(text[i] == rest[i - 1]);
            }
        }
        front + 1
    } else {
        assert(trimmed_front(text) =~= text.subrange(0, text.len() as int));
        0
    }
}

/// Trimming the back leaves so many characters.
proof fn lemma_trimmed_back(text: Seq<char>) -> (kept: int)
    ensures
        0 <= kept <= text.len(),
        trimmed_back(text) == text.subrange(0, kept),
        forall|i: int| kept <= i < text.len() ==> white_space(#[trigger] text[i]),
        kept > 0 ==> !white_space(text[kept - 1]),
    decreases text.len(),
{
    if text.len() > 0 && white_space(text.last()) {
        let rest = text.drop_last();
        let kept = lemma_trimmed_back(rest);
        assert(trimmed_back(text) =~= text.subrange(0, kept));
        assert forall|i: int| kept <= i < text.len() implies white_space(#[trigger] text[i]) by {
            if i < rest.len() {
                assert(text[i] == rest[i]);
            }
        }
        kept
    } else {
        assert(trimmed_back(text) =~= text.subrange(0, text.len() as int));
        text.len() as int
    }
}

/// A tag is filled in iff it is not blank, and then with its trimmed text.
pub proof fn law_a_tag_is_filled_unless_it_is_blank(value: Option<Seq<char>>)
    ensures
        filled(value) is Some <==> !blank(value),
        filled(value) matches Some(text) ==> text == trimmed(value->0),
{
    if let Some(text) = value {
        law_trimming_leaves_a_text_unless_it_is_blank(text);
    }
}

/// What was trimmed stays as it is when it is trimmed again.
pub proof fn lemma_trimmed_twice(text: Seq<char>)
    ensures
        trimmed(trimmed(text)) == trimmed(text),
{
    law_trimming_leaves_a_text_unless_it_is_blank(text);
}

/// The dictionary order goes by the first character in which two texts differ;
/// a text stands before those that it starts.
pub proof fn law_texts_are_ordered_by_their_first_difference(
    left: Seq<char>,
    right: Seq<char>,
    same: int,
)
    requires
        0 <= same <= left.len(),
        same <= right.len(),
        forall|i: int| 0 <= i < same ==> left[i] == right[i],
        same < left.len() && same < right.len() ==> left[same] != right[same],
    ensures
        text_order(left, right) == if same < left.len() && same < right.len() {
            if (left[same] as u32) < (right[same] as u32) {
                Order::Before
            } else {
                Order::After
            }
        } else if left.len() < right.len() {
            Order::Before
        } else if left.len() > right.len() {
            Order::After
        } else {
            Order::Same
        },
    decreases same,
{
    if same > 0 {
        assert(left[0] == right[0]);
        assert forall|i: int| 0 <= i < same - 1 implies left.drop_first()[i]
            == right.drop_first()[i] by {
            assert(left[i + 1] == right[i + 1]);
        }
        law_texts_are_ordered_by_their_first_difference(
            left.drop_first(),
            right.drop_first(),
            same - 1,
        );
    } else if left.len() > 0 && right.len() > 0 {
        lemma_code_point_tells(left[0], right[0]);
    }
}

/// The number that some decimal digits stand for.
pub open spec fn digits_value(digits: Seq<char>) -> int
    decreases digits.len(),
{
    if digits.len() == 0 {
        0
    } else {
        10 * digits_value(digits.drop_last()) + (digits.last() as u32 - '0' as u32)
    }
}

/// The digits of a number are digits, stand for that number, and have no zero in
/// front unless the number is zero.
pub proof fn law_digits_stand_for_their_number(n: nat)
    ensures
        digits_value(decimal(n)) == n,
        decimal(n).len() > 0,
        n > 0 ==> decimal(n)[0] != '0',
        n == 0 ==> decimal(n) == seq!['0'],
        forall|i: int| 0 <= i < decimal(n).len() ==> '0' <= #[trigger] decimal(n)[i] <= '9',
        two_digits(n).len() >= 2,
        n >= 10 ==> two_digits(n) == decimal(n),
        n < 10 ==> two_digits(n) == seq!['0', digit(n)],
    decreases n,
{
    reveal_strlit("0");
    if n < 10 {
        assert(decimal(n).drop_last() =~= Seq::empty());
        assert(digits_value(Seq::empty()) == 0);
        assert(two_digits(n) =~= seq!['0', digit(n)]);
    } else {
        law_digits_stand_for_their_number(n / 10);
        let front = decimal(n / 10);
        assert(decimal(n).drop_last() =~= front);
        assert(decimal(n)[0] == front[0]);
        assert forall|i: int| 0 <= i < decimal(n).len() implies '0' <= #[trigger] decimal(n)[i]
            <= '9' by {
            if i < front.len() {
                assert(decimal(n)[i] == front[i]);
            }
        }
    }
}

/// A duration of minutes and seconds is written as such.
pub proof fn law_minutes_and_seconds_are_written_apart(minutes: nat, seconds: nat)
    requires
        seconds < 60,
    ensures
        minutes_text(60 * minutes + seconds) == decimal(minutes) + ":"@ + two_digits(seconds),
{
}

/// Joining lists joins their joins; a single text is left as it is, and nothing
/// comes of nothing.
pub proof fn law_joins_can_be_joined(
    first: Seq<Seq<char>>,
    second: Seq<Seq<char>>,
    separator: Seq<char>,
)
    requires
        first.len() > 0,
        second.len() > 0,
    ensures
        joined(first + second, separator) == joined(first, separator) + separator + joined(
            second,
            separator,
        ),
        first.len() == 1 ==> joined(first, separator) == first[0],
        joined(Seq::empty(), separator).len() == 0,
    decreases second.len(),
{
    let both = first + second;
    assert(both.last() == second.last());
    if second.len() == 1 {
        assert(both.drop_last() =~= first);
    } else {
        let fewer = second.drop_last();
        law_joins_can_be_joined(first, fewer, separator);
        assert(both.drop_last() =~= first + fewer);
        assert(joined(both, separator) =~= joined(first, separator) + separator + joined(
            second,
            separator,
        ));
    }
}

/// A number below zero is written as a sign and the digits of its opposite, any
/// other as its digits alone; so two numbers are never written alike.
pub proof fn law_a_sign_tells_a_number_from_its_opposite(n: int, other: int)
    ensures
        n >= 0 ==> digits_value(signed_decimal(n)) == n,
        n < 0 ==> signed_decimal(n).len() > 1 && signed_decimal(n)[0] == '-' && digits_value(
            signed_decimal(n).drop_first(),
        ) == -n,
        signed_decimal(n) == signed_decimal(other) ==> n == other,
{
    reveal_strlit("-");
    lemma_signed_digits(n);
    lemma_signed_digits(other);
}

proof fn lemma_signed_digits(n: int)
    ensures
        n >= 0 ==> digits_value(signed_decimal(n)) == n && signed_decimal(n)[0] != '-',
        n < 0 ==> signed_decimal(n).len() > 1 && signed_decimal(n)[0] == '-' && digits_value(
            signed_decimal(n).drop_first(),
        ) == -n,
{
    reveal_strlit("-");
    if n < 0 {
        law_digits_stand_for_their_number((-n) as nat);
        assert(signed_decimal(n).drop_first() =~= decimal((-n) as nat));
    } else {
        law_digits_stand_for_their_number(n as nat);
        assert('0' <= decimal(n as nat)[0]);
    }
}

} // verus!
