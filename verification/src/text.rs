//! Text as sequences of characters: numbers, order, joining and trimming.

use vstd::prelude::*;

verus! {

/// `str` equality compares the two texts.
pub assume_specification[ <str as PartialEq>::eq ](left: &str, right: &str) -> (same: bool)
    ensures
        same == (left@ == right@),
;

/// `String::push` appends one character at the end.
pub assume_specification[ String::push ](text: &mut String, c: char)
    ensures
        final(text)@ == old(text)@.push(c),
;

/// The text that Rust's debug formatting gives for a string: in double quotes, with escapes.
pub uninterp spec fn quoted_text(value: Seq<char>) -> Seq<char>;

/// Formats a string with `format!("{:?}")`. The result is a function of the text alone; which
/// characters are escaped, and how, is left to the formatter.
#[verifier::external_body]
pub(crate) fn quoted(value: &str) -> (text: String)
    ensures
        text@ == quoted_text(value@),
{
    format!("{value:?}")
}

/// The characters of a string.
pub fn characters(text: &str) -> (chars: Vec<char>)
    ensures
        chars@ == text@,
{
    let mut chars: Vec<char> = Vec::new();
    for c in it: text.chars()
        invariant
            chars@ == text@.take(it.index()),
            it.seq() == text@,
    {
        proof {
            assert(text@.take(it.index()).push(c) =~= text@.take(it.index() + 1));
        }
        chars.push(c);
    }
    proof {
        assert(text@.take(text@.len() as int) =~= text@);
    }
    chars
}

/// The string of a run of characters.
pub fn text_of(chars: &[char]) -> (text: String)
    ensures
        text@ == chars@,
{
    let mut text: String = String::new();
    for i in 0..chars.len()
        invariant
            text@ == chars@.take(i as int),
    {
        proof {
            assert(chars@.take(i as int).push(chars@[i as int]) =~= chars@.take(i + 1));
        }
        text.push(chars[i]);
    }
    proof {
        assert(chars@.take(chars@.len() as int) =~= chars@);
    }
    text
}

/// The texts of a list of strings.
pub open spec fn texts(strings: Seq<String>) -> Seq<Seq<char>> {
    Seq::new(strings.len(), |i: int| strings[i]@)
}

/// A string that may be missing, as a sequence of characters.
pub open spec fn optional(text: Option<String>) -> Option<Seq<char>> {
    match text {
        Some(text) => Some(text@),
        None => None,
    }
}

/// A copy of a string that may be missing.
pub fn copied_option(text: &Option<String>) -> (copy: Option<String>)
    ensures
        optional(copy) == optional(*text),
{
    match text {
        Some(text) => Some(text.clone()),
        None => None,
    }
}

/// A copy of a list of strings.
pub fn copied(strings: &Vec<String>) -> (copy: Vec<String>)
    ensures
        texts(copy@) == texts(strings@),
{
    let mut copy: Vec<String> = Vec::new();
    for i in 0..strings.len()
        invariant
            copy.len() == i,
            forall|j: int| 0 <= j < i ==> (#[trigger] copy@[j])@ == strings@[j]@,
    {
        copy.push(strings[i].clone());
    }
    assert(texts(copy@) =~= texts(strings@));
    copy
}

/// The texts one after the other, with a separator between neighbours.
pub open spec fn joined(parts: Seq<Seq<char>>, separator: Seq<char>) -> Seq<char>
    decreases parts.len(),
{
    if parts.len() == 0 {
        Seq::empty()
    } else if parts.len() == 1 {
        parts[0]
    } else {
        joined(parts.drop_last(), separator) + separator + parts.last()
    }
}

/// Joins strings with a separator.
pub fn join(parts: &[String], separator: &str) -> (text: String)
    ensures
        text@ == joined(texts(parts@), separator@),
{
    let mut text: String = String::new();
    let ghost all = texts(parts@);
    for i in 0..parts.len()
        invariant
            all == texts(parts@),
            text@ == joined(all.take(i as int), separator@),
    {
        proof {
            assert(all.take(i + 1).drop_last() =~= all.take(i as int));
            if i == 0 {
                assert(all.take(1)[0] == all[0]);
            }
        }
        if i > 0 {
            text.append(separator);
        }
        text.append(parts[i].as_str());
        proof {
            assert(text@ =~= joined(all.take(i + 1), separator@));
        }
    }
    proof {
        assert(all.take(parts@.len() as int) =~= all);
    }
    text
}

// ── decimal numbers ──────────────────────────────────────────────────────────

/// The character of a decimal digit.
pub open spec fn digit_char(digit: int) -> char {
    (48 + digit) as char
}

pub open spec fn is_digit(c: char) -> bool {
    '0' <= c <= '9'
}

/// The decimal digits of a number, without leading zeros.
pub open spec fn decimal_text(n: int) -> Seq<char>
    decreases n,
{
    if n < 10 {
        seq![digit_char(n)]
    } else {
        decimal_text(n / 10).push(digit_char(n % 10))
    }
}

/// Writes a number in decimal.
pub fn decimal(n: u32) -> (text: String)
    ensures
        text@ == decimal_text(n as int),
    decreases n,
{
    let digit: u8 = (n % 10) as u8;
    let mut text: String = if n < 10 {
        String::new()
    } else {
        decimal(n / 10)
    };
    text.push((48 + digit) as char);
    proof {
        assert(Seq::<char>::empty().push(digit_char(n as int % 10)) =~= seq![
            digit_char(n as int % 10),
        ]);
    }
    text
}

/// A number below one hundred as two digits.
pub open spec fn two_digits(n: int) -> Seq<char> {
    seq![digit_char(n / 10), digit_char(n % 10)]
}

/// Writes a number below one hundred as two digits, with a leading zero where it needs one.
pub fn pad_two(n: u16) -> (text: String)
    requires
        n < 100,
    ensures
        text@ == two_digits(n as int),
{
    let tens: u8 = (n / 10) as u8;
    let ones: u8 = (n % 10) as u8;
    let mut text: String = String::new();
    text.push((48 + tens) as char);
    text.push((48 + ones) as char);
    proof {
        assert(text@ =~= two_digits(n as int));
    }
    text
}

/// Why a text is not a number in range.
#[derive(Clone, Copy, Debug, PartialEq, Eq, Structural)]
pub enum NumberFault {
    Empty,
    InvalidDigit,
    TooLarge,
}

/// The number that digits continue from `value`, scanned from the left.
pub open spec fn scanned(digits: Seq<char>, value: int, max: int) -> Result<int, NumberFault>
    decreases digits.len(),
{
    if digits.len() == 0 {
        Ok(value)
    } else if !is_digit(digits[0]) {
        Err(NumberFault::InvalidDigit)
    } else if value * 10 + (digits[0] as int - 48) > max {
        Err(NumberFault::TooLarge)
    } else {
        scanned(digits.drop_first(), value * 10 + (digits[0] as int - 48), max)
    }
}

/// The number of at most `max` that a text spells: decimal digits behind an optional plus sign.
pub open spec fn parsed_number(text: Seq<char>, max: int) -> Result<int, NumberFault> {
    if text.len() == 0 {
        Err(NumberFault::Empty)
    } else if text.len() == 1 && (text[0] == '+' || text[0] == '-') {
        Err(NumberFault::InvalidDigit)
    } else if text[0] == '+' {
        scanned(text.drop_first(), 0, max)
    } else {
        scanned(text, 0, max)
    }
}

proof fn lemma_scanned_is_natural(digits: Seq<char>, value: int, max: int)
    requires
        0 <= value <= max,
    ensures
        scanned(digits, value, max) matches Ok(n) ==> 0 <= n <= max,
    decreases digits.len(),
{
    if digits.len() > 0 && is_digit(digits[0]) {
        let next = value * 10 + (digits[0] as int - 48);
        if next <= max {
            lemma_scanned_is_natural(digits.drop_first(), next, max);
        }
    }
}

pub proof fn lemma_parsed_is_natural(text: Seq<char>, max: int)
    requires
        0 <= max,
    ensures
        parsed_number(text, max) matches Ok(n) ==> 0 <= n <= max,
{
    if text.len() > 0 {
        lemma_scanned_is_natural(text, 0, max);
        lemma_scanned_is_natural(text.drop_first(), 0, max);
    }
}

/// Reads a number of at most `max`.
pub fn parse_number(text: &str, max: u32) -> (number: Result<u32, NumberFault>)
    ensures
        match number {
            Ok(n) => parsed_number(text@, max as int) == Ok::<int, NumberFault>(n as int) && n
                <= max,
            Err(fault) => parsed_number(text@, max as int) == Err::<int, NumberFault>(fault),
        },
{
    let chars: Vec<char> = characters(text);
    if chars.len() == 0 {
        return Err(NumberFault::Empty);
    }
    if chars.len() == 1 && (chars[0] == '+' || chars[0] == '-') {
        return Err(NumberFault::InvalidDigit);
    }
    let mut i: usize = if chars[0] == '+' {
        1
    } else {
        0
    };
    let mut value: u32 = 0;
    proof {
        assert(text@.skip(0) =~= text@);
        assert(text@.skip(1) =~= text@.drop_first());
    }
    while i < chars.len()
        invariant
            chars@ == text@,
            i <= chars.len(),
            value <= max,
            parsed_number(text@, max as int) == scanned(
                text@.skip(i as int),
                value as int,
                max as int,
            ),
        decreases chars.len() - i,
    {
        let c: char = chars[i];
        proof {
            assert(text@.skip(i as int).drop_first() =~= text@.skip(i + 1));
        }
        if !('0' <= c && c <= '9') {
            return Err(NumberFault::InvalidDigit);
        }
        let next: u64 = value as u64 * 10 + (c as u32 - 48) as u64;
        if next > max as u64 {
            return Err(NumberFault::TooLarge);
        }
        value = next as u32;
        i = i + 1;
    }
    Ok(value)
}

/// Scanning two texts in a row scans the second from where the first ended.
proof fn lemma_scanned_concat(a: Seq<char>, b: Seq<char>, value: int, max: int)
    ensures
        scanned(a + b, value, max) == match scanned(a, value, max) {
            Ok(n) => scanned(b, n, max),
            Err(fault) => Err(fault),
        },
    decreases a.len(),
{
    if a.len() == 0 {
        assert(a + b =~= b);
    } else {
        assert((a + b).drop_first() =~= a.drop_first() + b);
        lemma_scanned_concat(a.drop_first(), b, value * 10 + (a[0] as int - 48), max);
    }
}

proof fn lemma_digits_scan(n: int, max: int)
    requires
        0 <= n <= max,
    ensures
        scanned(decimal_text(n), 0, max) == Ok::<int, NumberFault>(n),
        decimal_text(n).len() > 0,
        is_digit(decimal_text(n)[0]),
    decreases n,
{
    let last = digit_char(n % 10);
    let tail = seq![last];
    assert(tail.drop_first() =~= Seq::<char>::empty());
    if n < 10 {
        assert(decimal_text(n) =~= tail);
        assert(scanned(tail.drop_first(), n, max) == Ok::<int, NumberFault>(n));
    } else {
        lemma_digits_scan(n / 10, max);
        assert(decimal_text(n) =~= decimal_text(n / 10) + tail);
        lemma_scanned_concat(decimal_text(n / 10), tail, 0, max);
        assert(scanned(tail.drop_first(), n, max) == Ok::<int, NumberFault>(n));
    }
}

/// A number that is written in decimal is read back.
pub proof fn decimal_reads_back(n: int, max: int)
    requires
        0 <= n <= max,
    ensures
        parsed_number(decimal_text(n), max) == Ok::<int, NumberFault>(n),
{
    lemma_digits_scan(n, max);
}

// ── order ────────────────────────────────────────────────────────────────────

/// Texts in the order of their first differing character; a proper prefix comes first.
pub open spec fn precedes(a: Seq<char>, b: Seq<char>) -> bool
    decreases a.len(),
{
    if b.len() == 0 {
        false
    } else if a.len() == 0 {
        true
    } else if a[0] != b[0] {
        a[0] < b[0]
    } else {
        precedes(a.drop_first(), b.drop_first())
    }
}

pub proof fn lemma_precedes_irreflexive(a: Seq<char>)
    ensures
        !precedes(a, a),
    decreases a.len(),
{
    if a.len() > 0 {
        lemma_precedes_irreflexive(a.drop_first());
    }
}

pub proof fn lemma_precedes_transitive(a: Seq<char>, b: Seq<char>, c: Seq<char>)
    requires
        precedes(a, b),
        precedes(b, c),
    ensures
        precedes(a, c),
    decreases a.len(),
{
    if a.len() > 0 && a[0] == b[0] && b[0] == c[0] {
        lemma_precedes_transitive(a.drop_first(), b.drop_first(), c.drop_first());
    }
}

pub proof fn lemma_precedes_total(a: Seq<char>, b: Seq<char>)
    ensures
        precedes(a, b) || precedes(b, a) || a == b,
    decreases a.len(),
{
    if a.len() == 0 || b.len() == 0 {
        if a.len() == b.len() {
            assert(a =~= b);
        }
    } else if a[0] == b[0] {
        lemma_precedes_total(a.drop_first(), b.drop_first());
        if a.drop_first() == b.drop_first() {
            assert(a =~= seq![a[0]] + a.drop_first());
            assert(b =~= seq![b[0]] + b.drop_first());
        }
    }
}

/// Whether one text comes before another.
pub fn comes_before(a: &str, b: &str) -> (less: bool)
    ensures
        less == precedes(a@, b@),
{
    let left: Vec<char> = characters(a);
    let right: Vec<char> = characters(b);
    let mut i: usize = 0;
    proof {
        assert(a@.skip(0) =~= a@);
        assert(b@.skip(0) =~= b@);
    }
    while i < left.len() && i < right.len()
        invariant
            left@ == a@,
            right@ == b@,
            i <= left.len(),
            i <= right.len(),
            precedes(a@, b@) == precedes(a@.skip(i as int), b@.skip(i as int)),
        decreases left.len() - i,
    {
        proof {
            assert(a@.skip(i as int).drop_first() =~= a@.skip(i + 1));
            assert(b@.skip(i as int).drop_first() =~= b@.skip(i + 1));
        }
        if left[i] != right[i] {
            return left[i] < right[i];
        }
        i = i + 1;
    }
    i < right.len()
}

// ── character classes ────────────────────────────────────────────────────────

/// The characters with the Unicode property `White_Space`.
pub open spec fn is_space(c: char) -> bool {
    let n = c as u32;
    ||| 0x9 <= n <= 0xD
    ||| n == 0x20
    ||| n == 0x85
    ||| n == 0xA0
    ||| n == 0x1680
    ||| 0x2000 <= n <= 0x200A
    ||| n == 0x2028
    ||| n == 0x2029
    ||| n == 0x202F
    ||| n == 0x205F
    ||| n == 0x3000
}

pub fn space(c: char) -> (r: bool)
    ensures
        r == is_space(c),
{
    let n: u32 = c as u32;
    (0x9 <= n && n <= 0xD) || n == 0x20 || n == 0x85 || n == 0xA0 || n == 0x1680 || (0x2000 <= n
        && n <= 0x200A) || n == 0x2028 || n == 0x2029 || n == 0x202F || n == 0x205F || n == 0x3000
}

/// The control characters: Unicode's general category `Cc`.
pub open spec fn is_control(c: char) -> bool {
    c as u32 <= 0x1F || 0x7F <= c as u32 <= 0x9F
}

/// A text of white space alone, or of nothing.
pub open spec fn is_blank(text: Seq<char>) -> bool {
    forall|i: int| 0 <= i < text.len() ==> is_space(#[trigger] text[i])
}

pub open spec fn has_control(text: Seq<char>) -> bool {
    exists|i: int| 0 <= i < text.len() && is_control(#[trigger] text[i])
}

pub fn blank(text: &str) -> (r: bool)
    ensures
        r == is_blank(text@),
{
    let chars: Vec<char> = characters(text);
    for i in 0..chars.len()
        invariant
            chars@ == text@,
            forall|j: int| 0 <= j < i ==> is_space(#[trigger] text@[j]),
    {
        if !space(chars[i]) {
            return false;
        }
    }
    true
}

pub fn contains_control(text: &str) -> (r: bool)
    ensures
        r == has_control(text@),
{
    let chars: Vec<char> = characters(text);
    for i in 0..chars.len()
        invariant
            chars@ == text@,
            forall|j: int| 0 <= j < i ==> !is_control(#[trigger] text@[j]),
    {
        let n: u32 = chars[i] as u32;
        if n <= 0x1F || (0x7F <= n && n <= 0x9F) {
            assert(is_control(text@[i as int]));
            return true;
        }
    }
    false
}

/// A text without the white space at its start.
pub open spec fn trimmed_start(text: Seq<char>) -> Seq<char>
    decreases text.len(),
{
    if text.len() > 0 && is_space(text[0]) {
        trimmed_start(text.drop_first())
    } else {
        text
    }
}

/// A text without the white space at its end.
pub open spec fn trimmed_end(text: Seq<char>) -> Seq<char>
    decreases text.len(),
{
    if text.len() > 0 && is_space(text.last()) {
        trimmed_end(text.drop_last())
    } else {
        text
    }
}

/// A text without the white space at its two ends.
pub open spec fn trimmed(text: Seq<char>) -> Seq<char> {
    trimmed_end(trimmed_start(text))
}

/// Takes the white space off the two ends of a text.
pub fn trim(text: &str) -> (r: String)
    ensures
        r@ == trimmed(text@),
{
    let chars: Vec<char> = characters(text);
    let mut from: usize = 0;
    proof {
        assert(text@.skip(0) =~= text@);
    }
    while from < chars.len() && space(chars[from])
        invariant
            chars@ == text@,
            from <= chars.len(),
            trimmed_start(text@) == trimmed_start(text@.skip(from as int)),
        decreases chars.len() - from,
    {
        proof {
            assert(text@.skip(from as int).drop_first() =~= text@.skip(from + 1));
        }
        from = from + 1;
    }
    let ghost rest = text@.skip(from as int);
    let mut to: usize = chars.len();
    proof {
        assert(text@.subrange(from as int, to as int) =~= rest);
    }
    while to > from && space(chars[to - 1])
        invariant
            chars@ == text@,
            from <= to <= chars.len(),
            trimmed_end(rest) == trimmed_end(text@.subrange(from as int, to as int)),
        decreases to,
    {
        proof {
            assert(text@.subrange(from as int, to as int).drop_last() =~= text@.subrange(
                from as int,
                to - 1,
            ));
        }
        to = to - 1;
    }
    let mut r: String = String::new();
    let mut i: usize = from;
    while i < to
        invariant
            chars@ == text@,
            from <= i <= to <= chars.len(),
            r@ == text@.subrange(from as int, i as int),
        decreases to - i,
    {
        proof {
            assert(text@.subrange(from as int, i as int).push(text@[i as int]) =~= text@.subrange(
                from as int,
                i + 1,
            ));
        }
        r.push(chars[i]);
        i = i + 1;
    }
    r
}

/// Whether a text starts with a dash.
pub open spec fn is_flag(text: Seq<char>) -> bool {
    text.len() > 0 && text[0] == '-'
}

pub fn starts_with_dash(text: &str) -> (r: bool)
    ensures
        r == is_flag(text@),
{
    let chars: Vec<char> = characters(text);
    chars.len() > 0 && chars[0] == '-'
}

/// Whether one text occurs inside another.
pub open spec fn occurs_in(part: Seq<char>, text: Seq<char>) -> bool {
    exists|i: int| occurs_at(part, text, i)
}

pub open spec fn occurs_at(part: Seq<char>, text: Seq<char>, i: int) -> bool {
    0 <= i && i + part.len() <= text.len() && text.subrange(i, i + part.len()) == part
}

/// Whether `text` contains `part`.
pub fn contains(text: &str, part: &str) -> (r: bool)
    ensures
        r == occurs_in(part@, text@),
{
    let whole: Vec<char> = characters(text);
    let wanted: Vec<char> = characters(part);
    if wanted.len() > whole.len() {
        return false;
    }
    let last: usize = whole.len() - wanted.len();
    let mut i: usize = 0;
    loop
        invariant
            whole@ == text@,
            wanted@ == part@,
            last == whole.len() - wanted.len(),
            i <= last,
            forall|k: int| 0 <= k < i ==> !occurs_at(part@, text@, k),
        decreases last - i,
    {
        let mut j: usize = 0;
        while j < wanted.len() && whole[i + j] == wanted[j]
            invariant
                whole@ == text@,
                wanted@ == part@,
                j <= wanted.len(),
                i + wanted.len() <= whole.len(),
                forall|k: int| 0 <= k < j ==> text@[i + k] == part@[k],
            decreases wanted.len() - j,
        {
            j = j + 1;
        }
        if j == wanted.len() {
            assert(text@.subrange(i as int, i + part@.len()) =~= part@);
            assert(occurs_at(part@, text@, i as int));
            return true;
        }
        proof {
            assert(text@.subrange(i as int, i + part@.len())[j as int] == text@[i + j]);
            assert(!occurs_at(part@, text@, i as int));
        }
        if i == last {
            return false;
        }
        i = i + 1;
    }
}

// ── what texts mean ──────────────────────────────────────────────────────────

/// Joined texts stand one behind the other with the separator between neighbours.
pub proof fn joined_texts_stand_in_a_row(parts: Seq<Seq<char>>, part: Seq<char>, separator: Seq<char>)
    ensures
        joined(Seq::empty(), separator) == Seq::<char>::empty(),
        joined(seq![part], separator) == part,
        parts.len() > 0 ==> joined(parts.push(part), separator) == joined(parts, separator)
            + separator + part,
{
    reveal_with_fuel(joined, 2);
    assert(parts.push(part).drop_last() =~= parts);
    assert(parts.push(part).last() == part);
    assert(seq![part].drop_last() =~= Seq::<Seq<char>>::empty());
    assert(seq![part].last() == part);
}

/// A digit behind a number that was read multiplies it by ten and adds to it, as long as the result
/// is not too large; a digit alone reads as itself; what is no digit is refused.
pub proof fn digits_count_by_their_place(text: Seq<char>, digit: char, max: int)
    requires
        max >= 9,
    ensures
        ({
            let value = digit as int - 48;
            &&& '0' <= digit <= '9' ==> parsed_number(seq![digit], max) == Ok::<int, NumberFault>(
                value,
            )
            &&& '0' <= digit <= '9' ==> (parsed_number(text, max) matches Ok(n) ==> if n * 10
                + value <= max {
                parsed_number(text.push(digit), max) == Ok::<int, NumberFault>(n * 10 + value)
            } else {
                parsed_number(text.push(digit), max) is Err
            })
            &&& !('0' <= digit <= '9') && text.len() > 0 ==> parsed_number(
                text.push(digit),
                max,
            ) is Err
            &&& parsed_number(Seq::empty(), max) is Err
        }),
{
    let tail = seq![digit];
    reveal_with_fuel(scanned, 3);
    assert(tail.drop_first() =~= Seq::<char>::empty());
    assert(text.push(digit) =~= text + tail);
    if text.len() > 0 {
        assert((text + tail).drop_first() =~= text.drop_first() + tail);
        lemma_scanned_concat(text, tail, 0, max);
        lemma_scanned_concat(text.drop_first(), tail, 0, max);
    }
}

/// Taking white space off a text leaves a part of it that neither starts nor ends with white space,
/// with nothing but white space before and behind it.
pub proof fn trimming_takes_white_space_off_the_ends(text: Seq<char>)
    ensures
        ({
            let rest = trimmed(text);
            &&& rest.len() > 0 ==> !is_space(rest[0]) && !is_space(rest[rest.len() - 1])
            &&& exists|before: Seq<char>, behind: Seq<char>|
                #[trigger] is_blank(before) && #[trigger] is_blank(behind) && text == before + rest
                    + behind
        }),
{
    let middle = trimmed_start(text);
    let before = lemma_trimmed_start(text);
    let behind = lemma_trimmed_end(middle);
    let rest = trimmed(text);
    assert(text =~= (before + rest) + behind);
    if rest.len() > 0 {
        assert(rest[0] == middle[0]);
    }
}

proof fn lemma_trimmed_start(text: Seq<char>) -> (before: Seq<char>)
    ensures
        is_blank(before),
        text == before + trimmed_start(text),
        trimmed_start(text).len() > 0 ==> !is_space(trimmed_start(text)[0]),
    decreases text.len(),
{
    if text.len() > 0 && is_space(text[0]) {
        let more = lemma_trimmed_start(text.drop_first());
        let before = seq![text[0]] + more;
        let rest = trimmed_start(text);
        assert(text =~= seq![text[0]] + text.drop_first());
        assert(text.drop_first() == more + rest);
        assert(text =~= before + trimmed_start(text));
        assert forall|i: int| 0 <= i < before.len() implies is_space(#[trigger] before[i]) by {
            if i > 0 {
                assert(is_space(more[i - 1]));
            }
        }
        before
    } else {
        assert(text =~= Seq::empty() + text);
        Seq::empty()
    }
}

proof fn lemma_trimmed_end(text: Seq<char>) -> (behind: Seq<char>)
    ensures
        is_blank(behind),
        text == trimmed_end(text) + behind,
        trimmed_end(text).len() > 0 ==> !is_space(trimmed_end(text).last()),
    decreases text.len(),
{
    if text.len() > 0 && is_space(text.last()) {
        let more = lemma_trimmed_end(text.drop_last());
        let behind = more.push(text.last());
        let rest = trimmed_end(text);
        assert(text =~= text.drop_last().push(text.last()));
        assert(text.drop_last() == rest + more);
        assert(text =~= trimmed_end(text) + behind);
        assert forall|i: int| 0 <= i < behind.len() implies is_space(#[trigger] behind[i]) by {
            if i < more.len() {
                assert(is_space(more[i]));
            }
        }
        behind
    } else {
        assert(text =~= text + Seq::empty());
        Seq::empty()
    }
}

/// Texts are ordered by their first characters that differ, and a text comes before what continues
/// it.
pub proof fn first_differences_decide(start: Seq<char>, a: char, b: char, c: Seq<char>, d: Seq<char>)
    ensures
        a != b ==> precedes(start + seq![a] + c, start + seq![b] + d) == (a < b),
        precedes(start, start + seq![a] + c),
        !precedes(start + seq![a] + c, start),
        !precedes(start, start),
    decreases start.len(),
{
    let x = start + seq![a] + c;
    let y = start + seq![b] + d;
    if start.len() > 0 {
        let rest = start.drop_first();
        first_differences_decide(rest, a, b, c, d);
        assert(x.drop_first() =~= rest + seq![a] + c);
        assert(y.drop_first() =~= rest + seq![b] + d);
    }
}

/// A number is written with as many digits as it needs.
pub proof fn numbers_have_no_leading_zeros(n: int)
    requires
        0 <= n,
    ensures
        decimal_text(n).len() > 0,
        n > 0 ==> decimal_text(n)[0] != '0',
        n == 0 ==> decimal_text(n) == seq!['0'],
    decreases n,
{
    if n >= 10 {
        numbers_have_no_leading_zeros(n / 10);
        assert(decimal_text(n)[0] == decimal_text(n / 10)[0]);
    }
}

/// White space is what is blank on a line or ends one; control characters are the codes below the
/// space and those about the delete character.
pub proof fn characters_fall_into_classes(c: char)
    ensures
        c == ' ' || c == '\t' || c == '\n' || c == '\r' ==> is_space(c),
        '!' <= c <= '~' ==> !is_space(c) && !is_control(c),
        ({
            let n = c as int;
            &&& is_control(c) <==> n < 0x20 || 0x7F <= n < 0xA0
            &&& is_space(c) && n >= 0x80 ==> n == 0x85 || n == 0xA0 || 0x1680 <= n <= 0x3000
        }),
{
}

/// Strings are known by their characters, in their order.
pub proof fn strings_are_known_by_their_characters(strings: Seq<String>, i: int, text: Option<String>)
    ensures
        texts(strings).len() == strings.len(),
        0 <= i < strings.len() ==> texts(strings)[i] == strings[i]@,
        text is None <==> optional(text) is None,
        text matches Some(string) ==> optional(text) == Some(string@),
{
}

/// A text occurs in every text that it stands in, and a text in which it occurs holds its characters
/// in a row.
pub proof fn texts_occur_where_they_stand(before: Seq<char>, part: Seq<char>, after: Seq<char>)
    ensures
        occurs_in(part, before + part + after),
        occurs_in(part, after) ==> exists|i: int|
            0 <= i <= after.len() - part.len() && #[trigger] after.subrange(i, i + part.len())
                == part,
{
    let whole = before + part + after;
    let at = before.len() as int;
    assert(whole.subrange(at, at + part.len()) =~= part);
    assert(occurs_at(part, whole, at));
    if occurs_in(part, after) {
        let i = choose|i: int| occurs_at(part, after, i);
        assert(after.subrange(i, i + part.len()) == part);
    }
}

}
