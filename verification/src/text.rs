//! Text as sequences of characters: searching, decimal numbers, visible ASCII.
use vstd::prelude::*;

verus! {

/// `part` occurs in `text` at position `at`.
pub open spec fn occurs_at(text: Seq<char>, part: Seq<char>, at: int) -> bool {
    0 <= at && at + part.len() <= text.len() && text.subrange(at, at + part.len()) == part
}

/// `text` begins with `part`.
pub open spec fn begins_with(text: Seq<char>, part: Seq<char>) -> bool {
    occurs_at(text, part, 0)
}

/// `text` ends with `part`.
pub open spec fn finishes_with(text: Seq<char>, part: Seq<char>) -> bool {
    occurs_at(text, part, text.len() - part.len())
}

/// `part` occurs somewhere in `text`.
pub open spec fn holds_text(text: Seq<char>, part: Seq<char>) -> bool {
    exists|at: int| occurs_at(text, part, at)
}

/// What stands behind the last `mark` of `text`; all of `text` where there is none.
pub open spec fn after_last(text: Seq<char>, mark: char) -> Seq<char>
    decreases text.len(),
{
    if text.len() == 0 || text.last() == mark {
        Seq::empty()
    } else {
        after_last(text.drop_last(), mark).push(text.last())
    }
}

/// A visible ASCII character: a space to a tilde, or a tab.
pub open spec fn is_visible(c: char) -> bool {
    ' ' <= c <= '~' || c == '\t'
}

/// Every character of `text` is visible ASCII.
pub open spec fn all_visible(text: Seq<char>) -> bool {
    forall|i: int| 0 <= i < text.len() ==> is_visible(#[trigger] text[i])
}

/// A visible ASCII character as one byte.
pub open spec fn is_visible_byte(b: u8) -> bool {
    32 <= b < 127 || b == 9
}

/// The bytes of a text of ASCII characters.
pub open spec fn ascii_bytes(text: Seq<char>) -> Seq<u8> {
    Seq::new(text.len(), |i: int| text[i] as u8)
}

/// The text that ASCII bytes spell.
pub open spec fn ascii_text(bytes: Seq<u8>) -> Seq<char> {
    Seq::new(bytes.len(), |i: int| bytes[i] as char)
}

/// A decimal digit.
pub open spec fn is_digit(c: char) -> bool {
    '0' <= c <= '9'
}

/// Every character of `text` is a decimal digit.
pub open spec fn all_digits(text: Seq<char>) -> bool {
    forall|i: int| 0 <= i < text.len() ==> is_digit(#[trigger] text[i])
}

/// The number that a decimal digit stands for.
pub open spec fn digit_value(c: char) -> nat {
    (c as int - '0' as int) as nat
}

/// The number that a text of decimal digits stands for.
pub open spec fn digits_value(text: Seq<char>) -> nat
    decreases text.len(),
{
    if text.len() == 0 {
        0
    } else {
        digits_value(text.drop_last()) * 10 + digit_value(text.last())
    }
}

/// The digits of a number text, behind the plus sign that it may begin with.
pub open spec fn unsigned_part(text: Seq<char>) -> Seq<char> {
    if text.len() > 0 && text[0] == '+' {
        text.skip(1)
    } else {
        text
    }
}

/// The number that `text` spells: decimal digits, at least one, behind at most one
/// plus sign, and no more than 64 bits can hold.
pub open spec fn number_of(text: Seq<char>) -> Option<u64> {
    let digits = unsigned_part(text);
    if digits.len() > 0 && all_digits(digits) && digits_value(digits) <= u64::MAX {
        Some(digits_value(digits) as u64)
    } else {
        None
    }
}

/// The decimal digit of a number below ten.
pub open spec fn digit(n: nat) -> char {
    (48 + n) as char
}

/// The decimal text of a number, without leading zeros.
pub open spec fn decimal(n: nat) -> Seq<char>
    decreases n,
{
    if n < 10 {
        seq![digit(n)]
    } else {
        decimal(n / 10).push(digit(n % 10))
    }
}

/// Two bytes that differ at most in the case of an ASCII letter.
pub open spec fn same_letter(a: u8, b: u8) -> bool {
    lower_byte(a) == lower_byte(b)
}

/// The lower case of an ASCII letter; any other byte as it is.
pub open spec fn lower_byte(b: u8) -> u8 {
    if 65 <= b <= 90 {
        (b + 32) as u8
    } else {
        b
    }
}

/// Two byte strings that differ at most in the case of ASCII letters.
pub open spec fn same_letters(a: Seq<u8>, b: Seq<u8>) -> bool {
    a.len() == b.len() && forall|i: int|
        0 <= i < a.len() ==> same_letter(#[trigger] a[i], b[i])
}

/// The characters of a text.
pub fn chars_of(text: &str) -> (r: Vec<char>)
    ensures
        r@ == text@,
{
    let mut out: Vec<char> = Vec::new();
    for c in it: text.chars()
        invariant
            it.seq() == text@,
            out@ == text@.take(it.index() as int),
    {
        out.push(c);
        assert(out@ =~= text@.take(it.index() as int + 1));
    }
    assert(text@.take(text@.len() as int) =~= text@);
    out
}

/// Whether `part` stands in `text` at position `at`.
fn stands_at(text: &Vec<char>, part: &Vec<char>, at: usize) -> (r: bool)
    ensures
        r == occurs_at(text@, part@, at as int),
{
    if at > text.len() || part.len() > text.len() - at {
        return false;
    }
    let mut i: usize = 0;
    while i < part.len()
        invariant
            i <= part.len(),
            at + part.len() <= text.len(),
            forall|j: int| 0 <= j < i ==> text@[at + j] == #[trigger] part@[j],
        decreases part.len() - i,
    {
        if text[at + i] != part[i] {
            proof {
                assert(text@.subrange(at as int, at + part@.len())[i as int] == text@[at + i]);
            }
            return false;
        }
        i = i + 1;
    }
    assert(text@.subrange(at as int, at + part@.len()) =~= part@);
    true
}

/// Whether `text` begins with `part`.
pub fn starts_with(text: &str, part: &str) -> (r: bool)
    ensures
        r == begins_with(text@, part@),
{
    stands_at(&chars_of(text), &chars_of(part), 0)
}

/// Whether `text` ends with `part`.
pub fn ends_with(text: &str, part: &str) -> (r: bool)
    ensures
        r == finishes_with(text@, part@),
{
    let whole = chars_of(text);
    let end = chars_of(part);
    if end.len() > whole.len() {
        return false;
    }
    stands_at(&whole, &end, whole.len() - end.len())
}

/// Whether `part` occurs somewhere in `text`.
pub fn contains(text: &str, part: &str) -> (r: bool)
    ensures
        r == holds_text(text@, part@),
{
    let whole = chars_of(text);
    let piece = chars_of(part);
    if piece.len() > whole.len() {
        assert forall|at: int| !occurs_at(text@, part@, at) by {}
        return false;
    }
    let last: usize = whole.len() - piece.len();
    let mut at: usize = 0;
    loop
        invariant
            whole@ == text@,
            piece@ == part@,
            last == whole@.len() - piece@.len(),
            at <= last,
            forall|j: int| 0 <= j < at ==> !occurs_at(text@, part@, j),
        decreases last - at,
    {
        if stands_at(&whole, &piece, at) {
            return true;
        }
        if at == last {
            assert forall|j: int| !occurs_at(text@, part@, j) by {}
            return false;
        }
        at = at + 1;
    }
}

/// `after_last` as the longest end of the text without the mark.
proof fn lemma_after_last(text: Seq<char>, mark: char, from: int)
    requires
        0 <= from <= text.len(),
        forall|i: int| from <= i < text.len() ==> text[i] != mark,
        from == 0 || text[from - 1] == mark,
    ensures
        after_last(text, mark) == text.skip(from),
    decreases text.len(),
{
    if text.len() == 0 {
        assert(text.skip(from) =~= Seq::empty());
    } else if from == text.len() {
        assert(text.last() == mark);
        assert(text.skip(from) =~= Seq::empty());
    } else {
        assert(text.last() != mark);
        lemma_after_last(text.drop_last(), mark, from);
        assert(text.skip(from) =~= text.drop_last().skip(from).push(text.last()));
    }
}

/// What stands behind the last `mark` of `text`.
pub fn tail_after(text: &str, mark: char) -> (r: &str)
    ensures
        r@ == after_last(text@, mark),
{
    let chars = chars_of(text);
    let mut from: usize = chars.len();
    while from > 0 && chars[from - 1] != mark
        invariant
            chars@ == text@,
            from <= chars@.len(),
            forall|i: int| from <= i < chars@.len() ==> chars@[i] != mark,
        decreases from,
    {
        from = from - 1;
    }
    proof {
        lemma_after_last(text@, mark, from as int);
        assert(text@.skip(from as int) =~= text@.subrange(from as int, text@.len() as int));
    }
    text.substring_char(from, chars.len())
}

/// More digits make no smaller number.
proof fn lemma_prefix_value(text: Seq<char>, n: int)
    requires
        0 <= n <= text.len(),
    ensures
        digits_value(text.take(n)) <= digits_value(text),
    decreases text.len(),
{
    if n == text.len() {
        assert(text.take(n) =~= text);
    } else {
        lemma_prefix_value(text.drop_last(), n);
        assert(text.drop_last().take(n) =~= text.take(n));
    }
}

/// Reads a number: decimal digits behind at most one plus sign.
pub fn parse_number(text: &str) -> (r: Option<u64>)
    ensures
        r == number_of(text@),
{
    let chars = chars_of(text);
    let start: usize = if chars.len() > 0 && chars[0] == '+' {
        1
    } else {
        0
    };
    let ghost digits = unsigned_part(text@);
    proof {
        assert(digits =~= text@.skip(start as int));
    }
    if chars.len() == start {
        return None;
    }
    let mut value: u64 = 0;
    let mut i: usize = start;
    while i < chars.len()
        invariant
            chars@ == text@,
            digits == text@.skip(start as int),
            digits == unsigned_part(text@),
            start <= i <= chars@.len(),
            forall|j: int| start <= j < i ==> is_digit(#[trigger] chars@[j]),
            value == digits_value(digits.take(i - start)),
        decreases chars.len() - i,
    {
        let c = chars[i];
        proof {
            assert(digits[i - start] == c);
            assert(digits.take(i + 1 - start).drop_last() =~= digits.take(i - start));
        }
        if c < '0' || c > '9' {
            assert(!is_digit(digits[i - start]));
            return None;
        }
        let d: u64 = (c as u64) - 48;
        if value > (u64::MAX - d) / 10 {
            proof {
                assert(value * 10 + d > u64::MAX);
                lemma_prefix_value(digits, i + 1 - start);
            }
            return None;
        }
        value = value * 10 + d;
        i = i + 1;
    }
    proof {
        assert(digits.take(digits.len() as int) =~= digits);
        assert forall|j: int| 0 <= j < digits.len() implies is_digit(#[trigger] digits[j]) by {
            assert(digits[j] == chars@[start + j]);
        }
    }
    Some(value)
}

/// The text of one decimal digit.
fn digit_text(d: u64) -> (r: &'static str)
    requires
        d < 10,
    ensures
        r@ == seq![digit(d as nat)],
{
    proof {
        reveal_strlit("0");
        reveal_strlit("1");
        reveal_strlit("2");
        reveal_strlit("3");
        reveal_strlit("4");
        reveal_strlit("5");
        reveal_strlit("6");
        reveal_strlit("7");
        reveal_strlit("8");
        reveal_strlit("9");
    }
    match d {
        0 => "0",
        1 => "1",
        2 => "2",
        3 => "3",
        4 => "4",
        5 => "5",
        6 => "6",
        7 => "7",
        8 => "8",
        _ => "9",
    }
}

/// The decimal text of a number.
pub fn decimal_text(n: u64) -> (r: String)
    ensures
        r@ == decimal(n as nat),
    decreases n,
{
    if n < 10 {
        digit_text(n).to_owned()
    } else {
        let mut text = decimal_text(n / 10);
        text.append(digit_text(n % 10));
        assert(text@ =~= decimal((n / 10) as nat).push(digit((n % 10) as nat)));
        text
    }
}

/// The lower case of an ASCII letter.
fn to_lower(b: u8) -> (r: u8)
    ensures
        r == lower_byte(b),
{
    if 65 <= b && b <= 90 {
        b + 32
    } else {
        b
    }
}

/// Whether two byte strings differ at most in the case of ASCII letters.
pub fn eq_ignore_case(a: &[u8], b: &[u8]) -> (r: bool)
    ensures
        r == same_letters(a@, b@),
{
    if a.len() != b.len() {
        return false;
    }
    let mut i: usize = 0;
    while i < a.len()
        invariant
            a@.len() == b@.len(),
            i <= a@.len(),
            forall|j: int| 0 <= j < i ==> same_letter(#[trigger] a@[j], b@[j]),
        decreases a.len() - i,
    {
        if to_lower(a[i]) != to_lower(b[i]) {
            assert(!same_letter(a@[i as int], b@[i as int]));
            return false;
        }
        i = i + 1;
    }
    true
}

/// A decimal text holds digits alone.
pub proof fn lemma_decimal_digits(n: nat)
    ensures
        decimal(n).len() > 0,
        all_digits(decimal(n)),
    decreases n,
{
    if n >= 10 {
        lemma_decimal_digits(n / 10);
    }
}

/// A decimal text stands for the number that it was made of.
proof fn lemma_decimal_value(n: nat)
    ensures
        digits_value(decimal(n)) == n,
    decreases n,
{
    reveal_with_fuel(digits_value, 2);
    if n < 10 {
        assert(decimal(n).drop_last() =~= Seq::empty());
    } else {
        lemma_decimal_value(n / 10);
        assert(decimal(n).drop_last() =~= decimal(n / 10));
    }
}

/// Reading the decimal text of a number gives the number back.
pub proof fn law_number_round_trip(n: u64)
    ensures
        number_of(decimal(n as nat)) == Some(n),
{
    lemma_decimal_digits(n as nat);
    lemma_decimal_value(n as nat);
    assert(is_digit(decimal(n as nat)[0]));
}

/// What follows a mark, and has none itself, stands behind the last mark.
pub proof fn law_tail_after_mark(front: Seq<char>, mark: char, tail: Seq<char>)
    requires
        !tail.contains(mark),
    ensures
        after_last(front + seq![mark] + tail, mark) == tail,
{
    let text = front + seq![mark] + tail;
    assert forall|i: int| front.len() + 1 <= i < text.len() implies text[i] != mark by {
        assert(text[i] == tail[i - front.len() - 1]);
    }
    lemma_after_last(text, mark, front.len() as int + 1);
    assert(text.skip(front.len() as int + 1) =~= tail);
}

/// A part that a text is put together around occurs in it.
pub proof fn law_part_occurs(front: Seq<char>, part: Seq<char>, back: Seq<char>)
    ensures
        occurs_at(front + part + back, part, front.len() as int),
        holds_text(front + part + back, part),
{
    let text = front + part + back;
    assert(text.subrange(front.len() as int, front.len() as int + part.len()) =~= part);
    assert(occurs_at(text, part, front.len() as int));
}

/// A text begins with its first characters, and with nothing else.
pub proof fn law_beginning_is_a_prefix(text: Seq<char>, part: Seq<char>)
    ensures
        begins_with(text, part) <==> part.is_prefix_of(text),
{
}

/// A text ends with its last characters, and with nothing else.
pub proof fn law_end_is_a_suffix(text: Seq<char>, part: Seq<char>)
    ensures
        finishes_with(text, part) <==> part.is_suffix_of(text),
{
}

/// A text holds just what begins at one of its positions.
pub proof fn law_held_text_begins_somewhere(text: Seq<char>, part: Seq<char>)
    ensures
        holds_text(text, part) <==> exists|i: int|
            0 <= i <= text.len() && part.is_prefix_of(#[trigger] text.skip(i)),
{
    if holds_text(text, part) {
        let at = choose|at: int| occurs_at(text, part, at);
        assert(text.skip(at).subrange(0, part.len() as int) =~= text.subrange(
            at,
            at + part.len(),
        ));
        assert(part.is_prefix_of(text.skip(at)));
    }
    if exists|i: int| 0 <= i <= text.len() && part.is_prefix_of(#[trigger] text.skip(i)) {
        let i = choose|i: int| 0 <= i <= text.len() && part.is_prefix_of(#[trigger] text.skip(i));
        assert(text.skip(i).subrange(0, part.len() as int) =~= text.subrange(i, i + part.len()));
        assert(occurs_at(text, part, i));
    }
}

/// Without a mark, all of a text stands behind the last one.
pub proof fn law_tail_without_mark(text: Seq<char>, mark: char)
    requires
        !text.contains(mark),
    ensures
        after_last(text, mark) == text,
{
    assert forall|i: int| 0 <= i < text.len() implies text[i] != mark by {
        assert(text.contains(text[i]));
    }
    lemma_after_last(text, mark, 0);
    assert(text.skip(0) =~= text);
}

/// A number is read digit by digit: each digit stands for its value behind ten times
/// what was read before. A plus sign may come first; a sign alone, nothing at all, any
/// other character, and what 64 bits cannot hold are no numbers.
pub proof fn law_numbers_are_read_digit_by_digit(text: Seq<char>, c: char)
    ensures
        number_of(Seq::empty()) is None,
        number_of(seq!['+']) is None,
        '0' <= c <= '9' ==> number_of(seq![c]) == Some((c as int - 48) as u64),
        '0' <= c <= '9' ==> number_of(seq!['+', c]) == Some((c as int - 48) as u64),
        '0' <= c <= '9' ==> (number_of(text) matches Some(n) ==> number_of(text.push(c)) == (
        if n * 10 + (c as int - 48) <= u64::MAX {
            Some((n * 10 + (c as int - 48)) as u64)
        } else {
            None
        })),
        !('0' <= c <= '9') && (text.len() > 0 || c != '+') ==> number_of(text.push(c)) is None,
        text.len() > 0 && text != seq!['+'] && number_of(text) is None ==> number_of(
            text.push(c),
        ) is None,
{
    reveal_with_fuel(digits_value, 3);
    assert(unsigned_part(seq!['+']) =~= Seq::empty());
    if '0' <= c <= '9' {
        assert(unsigned_part(seq!['+', c]) =~= seq![c]);
        assert(seq![c].drop_last() =~= Seq::empty());
        assert(all_digits(seq![c]));
    }
    let more = text.push(c);
    if text.len() > 0 {
        let digits = unsigned_part(text);
        assert(unsigned_part(more) =~= digits.push(c));
        assert(digits.push(c).drop_last() =~= digits);
        assert(digits.push(c).last() == c);
        if digits.len() > 0 && !all_digits(digits) {
            let i = choose|i: int| 0 <= i < digits.len() && !is_digit(#[trigger] digits[i]);
            assert(!is_digit(digits.push(c)[i]));
        }
        if '0' <= c <= '9' && all_digits(digits) {
            assert forall|i: int| 0 <= i < digits.push(c).len() implies is_digit(
                #[trigger] digits.push(c)[i],
            ) by {
                if i < digits.len() {
                    assert(digits.push(c)[i] == digits[i]);
                }
            }
        }
        if digits.len() == 0 {
            assert(text =~= seq!['+']);
        }
        if !is_digit(c) {
            assert(!is_digit(digits.push(c)[digits.len() as int]));
        }
    } else if c != '+' {
        assert(more =~= seq![c]);
        assert(unsigned_part(more) =~= seq![c]);
        if !is_digit(c) {
            assert(!is_digit(seq![c][0]));
        }
    }
}

/// A decimal text is made of digits, and does not begin with a zero unless it is the
/// text of zero.
pub proof fn law_decimal_text_is_plain(n: nat)
    ensures
        decimal(n).len() > 0,
        forall|i: int| 0 <= i < decimal(n).len() ==> '0' <= #[trigger] decimal(n)[i] <= '9',
        decimal(0) == seq!['0'],
        n > 0 ==> decimal(n)[0] != '0',
    decreases n,
{
    lemma_decimal_digits(n);
    assert forall|i: int| 0 <= i < decimal(n).len() implies '0' <= #[trigger] decimal(n)[i]
        <= '9' by {
        assert(is_digit(decimal(n)[i]));
    }
    if n >= 10 {
        law_decimal_text_is_plain(n / 10);
    }
}

/// Byte strings are the same but for case just when each two bytes are equal or are the
/// upper and the lower case of one letter.
pub proof fn law_case_is_all_that_differs(a: Seq<u8>, b: Seq<u8>)
    ensures
        same_letters(a, b) <==> a.len() == b.len() && forall|i: int|
            0 <= i < a.len() ==> #[trigger] a[i] == b[i] || (65 <= a[i] <= 90 && b[i] == a[i] + 32)
                || (65 <= b[i] <= 90 && a[i] == b[i] + 32),
{
    if a.len() == b.len() {
        assert forall|i: int| 0 <= i < a.len() implies (same_letter(#[trigger] a[i], b[i]) <==> (
        a[i] == b[i] || (65 <= a[i] <= 90 && b[i] == a[i] + 32) || (65 <= b[i] <= 90 && a[i]
            == b[i] + 32))) by {}
    }
}

/// Visible ASCII is the same as text and as bytes.
pub proof fn law_ascii_round_trip(text: Seq<char>, bytes: Seq<u8>)
    ensures
        all_visible(text) ==> ascii_text(ascii_bytes(text)) == text,
        (forall|i: int| 0 <= i < bytes.len() ==> #[trigger] bytes[i] < 128) ==> ascii_bytes(
            ascii_text(bytes),
        ) == bytes,
{
    if all_visible(text) {
        assert forall|i: int| 0 <= i < text.len() implies ascii_text(ascii_bytes(text))[i]
            == text[i] by {
            assert(is_visible(text[i]));
        }
        assert(ascii_text(ascii_bytes(text)) =~= text);
    }
    if forall|i: int| 0 <= i < bytes.len() ==> #[trigger] bytes[i] < 128 {
        assert(ascii_bytes(ascii_text(bytes)) =~= bytes);
    }
}

} // verus!
