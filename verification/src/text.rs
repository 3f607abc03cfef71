//! Text as sequences of characters: decimal numbers, white space, comparison.

use vstd::prelude::*;

verus! {

/// The decimal digit for `d`.
pub open spec fn digit(d: int) -> char
    recommends
        0 <= d < 10,
{
    ('0' as int + d) as char
}

/// `n` in decimal, without leading zeros.
pub open spec fn decimal(n: nat) -> Seq<char>
    decreases n,
{
    if n < 10 {
        seq![digit(n as int)]
    } else {
        decimal(n / 10).push(digit((n % 10) as int))
    }
}

/// `n` in decimal, with a minus sign in front where it is negative.
pub open spec fn signed_decimal(n: int) -> Seq<char> {
    if n < 0 {
        seq!['-'] + decimal((-n) as nat)
    } else {
        decimal(n as nat)
    }
}

/// `n` in decimal, filled up with zeros on the left to at least `width` digits.
pub open spec fn padded(n: nat, width: nat) -> Seq<char> {
    let digits = decimal(n);
    if digits.len() < width {
        zeros((width - digits.len()) as nat) + digits
    } else {
        digits
    }
}

/// `n` zeros.
pub open spec fn zeros(n: nat) -> Seq<char> {
    Seq::new(n, |i: int| '0')
}

/// `c` is a decimal digit.
pub open spec fn is_digit(c: char) -> bool {
    '0' <= c <= '9'
}

/// The number that the digits of `s` write.
pub open spec fn number(s: Seq<char>) -> nat
    decreases s.len(),
{
    if s.len() == 0 {
        0
    } else {
        number(s.drop_last()) * 10 + (s.last() as nat - '0' as nat) as nat
    }
}

/// `s` without a plus sign at its start.
pub open spec fn unsigned(s: Seq<char>) -> Seq<char> {
    if s.len() > 0 && s[0] == '+' {
        s.drop_first()
    } else {
        s
    }
}

/// The 16-bit number that `s` writes: digits, at least one of them, behind an
/// optional plus sign.
pub open spec fn u16_of(s: Seq<char>) -> Option<u16> {
    let digits = unsigned(s);
    if digits.len() > 0 && (forall|i: int| 0 <= i < digits.len() ==> is_digit(#[trigger] digits[i]))
        && number(digits) <= u16::MAX {
        Some(number(digits) as u16)
    } else {
        None
    }
}

/// The characters with the Unicode property White_Space.
pub open spec fn is_space(c: char) -> bool {
    ||| '\u{9}' <= c <= '\u{d}'
    ||| c == ' '
    ||| c == '\u{85}'
    ||| c == '\u{a0}'
    ||| c == '\u{1680}'
    ||| '\u{2000}' <= c <= '\u{200a}'
    ||| c == '\u{2028}'
    ||| c == '\u{2029}'
    ||| c == '\u{202f}'
    ||| c == '\u{205f}'
    ||| c == '\u{3000}'
}

/// `s` holds nothing but white space.
pub open spec fn is_blank(s: Seq<char>) -> bool {
    forall|i: int| 0 <= i < s.len() ==> is_space(#[trigger] s[i])
}

/// `s` without the white space at its start.
pub open spec fn trim_start(s: Seq<char>) -> Seq<char>
    decreases s.len(),
{
    if s.len() > 0 && is_space(s[0]) {
        trim_start(s.drop_first())
    } else {
        s
    }
}

/// `s` without the white space at its end.
pub open spec fn trim_end(s: Seq<char>) -> Seq<char>
    decreases s.len(),
{
    if s.len() > 0 && is_space(s.last()) {
        trim_end(s.drop_last())
    } else {
        s
    }
}

/// `s` without the white space at either end.
pub open spec fn trimmed(s: Seq<char>) -> Seq<char> {
    trim_end(trim_start(s))
}

/// `s` begins with `start`.
pub open spec fn starts_with(s: Seq<char>, start: Seq<char>) -> bool {
    start.len() <= s.len() && s.take(start.len() as int) == start
}

/// `s` ends with `end`.
pub open spec fn ends_with(s: Seq<char>, end: Seq<char>) -> bool {
    end.len() <= s.len() && s.skip(s.len() - end.len()) == end
}

/// Whatever `x` is, `text` of it is `part` of it between `a` and `b`.
pub open spec fn frames<T>(
    a: Seq<char>,
    b: Seq<char>,
    text: spec_fn(T) -> Seq<char>,
    part: spec_fn(T) -> Seq<char>,
) -> bool {
    forall|x: T| #[trigger] text(x) == a + part(x) + b
}

/// `text` shows `x` as `part` of it, and nothing else in it depends on `x`.
pub open spec fn shows<T>(text: spec_fn(T) -> Seq<char>, part: spec_fn(T) -> Seq<char>) -> bool {
    exists|a: Seq<char>, b: Seq<char>| #[trigger] frames(a, b, text, part)
}

/// `text` begins with `part` of `x`, and nothing else in it depends on `x`.
pub open spec fn leads<T>(text: spec_fn(T) -> Seq<char>, part: spec_fn(T) -> Seq<char>) -> bool {
    exists|b: Seq<char>| #[trigger] frames(Seq::empty(), b, text, part)
}

/// The characters of `s`.
pub fn chars_of(s: &str) -> (chars: Vec<char>)
    ensures
        chars@ == s@,
{
    let mut chars: Vec<char> = Vec::new();
    for c in it: s.chars()
        invariant
            it.seq() == s@,
            chars@ == s@.take(it.index()),
    {
        proof {
            assert(s@.take(it.index() + 1) =~= s@.take(it.index()).push(s@[it.index()]));
        }
        chars.push(c);
    }
    assert(s@.take(s@.len() as int) =~= s@);
    chars
}


/// Whether `a` and `b` hold the same characters.
pub fn same(a: &str, b: &str) -> (r: bool)
    ensures
        r == (a@ == b@),
{
    let left = chars_of(a);
    let right = chars_of(b);
    assert(left@.subrange(0, left@.len() as int) =~= left@);
    left.len() == right.len() && has_at(&left, &right, 0)
}

/// Whether the characters `part` stand in `chars` from `at` on.
fn has_at(chars: &Vec<char>, part: &Vec<char>, at: usize) -> (r: bool)
    requires
        at + part@.len() <= chars@.len(),
    ensures
        r == (chars@.subrange(at as int, at + part@.len()) == part@),
{
    let len = chars.len();
    let mut i: usize = 0;
    while i < part.len()
        invariant
            i <= part@.len(),
            at + part@.len() <= len,
            len == chars@.len(),
            forall|j: int| 0 <= j < i ==> chars@[at + j] == #[trigger] part@[j],
        decreases part@.len() - i,
    {
        if chars[at + i] != part[i] {
            assert(chars@.subrange(at as int, at + part@.len())[i as int] != part@[i as int]);
            return false;
        }
        i += 1;
    }
    assert(chars@.subrange(at as int, at + part@.len()) =~= part@);
    true
}

/// Whether `s` begins with `start`.
pub fn begins(s: &str, start: &str) -> (r: bool)
    ensures
        r == starts_with(s@, start@),
{
    let chars = chars_of(s);
    let part = chars_of(start);
    part.len() <= chars.len() && has_at(&chars, &part, 0)
}

/// Whether `s` ends with `end`.
pub fn ends(s: &str, end: &str) -> (r: bool)
    ensures
        r == ends_with(s@, end@),
{
    let chars = chars_of(s);
    let part = chars_of(end);
    if part.len() > chars.len() {
        return false;
    }
    proof {
        let at = chars@.len() - part@.len();
        assert(chars@.subrange(at, at + part@.len()) =~= chars@.skip(at));
    }
    has_at(&chars, &part, chars.len() - part.len())
}

/// Whether `c` has the Unicode property White_Space.
pub fn white_space(c: char) -> (r: bool)
    ensures
        r == is_space(c),
{
    ('\u{9}' <= c && c <= '\u{d}') || c == ' ' || c == '\u{85}' || c == '\u{a0}' || c == '\u{1680}'
        || ('\u{2000}' <= c && c <= '\u{200a}') || c == '\u{2028}' || c == '\u{2029}'
        || c == '\u{202f}' || c == '\u{205f}' || c == '\u{3000}'
}

/// Whether `s` is empty or holds nothing but white space.
pub fn blank(s: &str) -> (r: bool)
    ensures
        r == is_blank(s@),
{
    let chars = chars_of(s);
    let mut i: usize = 0;
    while i < chars.len()
        invariant
            i <= chars@.len(),
            chars@ == s@,
            forall|j: int| 0 <= j < i ==> is_space(#[trigger] chars@[j]),
        decreases chars@.len() - i,
    {
        if !white_space(chars[i]) {
            assert(!is_space(s@[i as int]));
            return false;
        }
        i += 1;
    }
    true
}

/// `s` without the white space at either end.
pub fn trim(s: &str) -> (r: &str)
    ensures
        r@ == trimmed(s@),
{
    let chars = chars_of(s);
    let mut from: usize = 0;
    proof {
        assert(s@.skip(0) =~= s@);
    }
    while from < chars.len() && white_space(chars[from])
        invariant
            from <= chars@.len(),
            chars@ == s@,
            trim_start(s@) == trim_start(s@.skip(from as int)),
        decreases chars@.len() - from,
    {
        assert(s@.skip(from as int).drop_first() =~= s@.skip(from + 1));
        from += 1;
    }
    let ghost rest = s@.skip(from as int);
    assert(trim_start(s@) == rest);
    let mut to: usize = chars.len();
    proof {
        assert(s@.subrange(from as int, to as int) =~= rest);
    }
    while from < to && white_space(chars[to - 1])
        invariant
            from <= to <= chars@.len(),
            chars@ == s@,
            trim_end(rest) == trim_end(s@.subrange(from as int, to as int)),
        decreases to,
    {
        assert(s@.subrange(from as int, to as int).drop_last() =~= s@.subrange(
            from as int,
            to - 1,
        ));
        to -= 1;
    }
    s.substring_char(from, to)
}

/// The decimal digit for `d`, as text.
fn digit_text(d: u64) -> (r: &'static str)
    requires
        d < 10,
    ensures
        r@ == seq![digit(d as int)],
{
    proof {
        reveal_strlit("0");
        reveal_strlit("1");
        reveal_strlit("2");
        reveal_strlit("3");
        reveal_strlit("4");
        reveal_strlit("5");
        reveal_strlit("6");
        reveal_strlit("7");
        reveal_strlit("8");
        reveal_strlit("9");
    }
    let r: &'static str = match d {
        0 => "0",
        1 => "1",
        2 => "2",
        3 => "3",
        4 => "4",
        5 => "5",
        6 => "6",
        7 => "7",
        8 => "8",
        _ => "9",
    };
    assert(r@ =~= seq![digit(d as int)]);
    r
}

/// Appends `n` in decimal.
pub fn push_decimal(out: &mut String, n: u64)
    ensures
        final(out)@ == old(out)@ + decimal(n as nat),
    decreases n,
{
    if n >= 10 {
        push_decimal(out, n / 10);
    }
    out.append(digit_text(n % 10));
    assert(out@ =~= old(out)@ + decimal(n as nat));
}

/// Appends `n` in decimal, with its sign where it is negative.
pub fn push_signed(out: &mut String, n: i64)
    ensures
        final(out)@ == old(out)@ + signed_decimal(n as int),
{
    if n < 0 {
        proof {
            reveal_strlit("-");
        }
        out.append("-");
        push_decimal(out, (-(n as i128)) as u64);
        assert("-"@ =~= seq!['-']);
        assert(out@ =~= old(out)@ + signed_decimal(n as int));
    } else {
        push_decimal(out, n as u64);
    }
}

/// The 16-bit number that `s` writes, if it writes one.
pub fn parse_u16(s: &str) -> (r: Option<u16>)
    ensures
        r == u16_of(s@),
{
    let chars = chars_of(s);
    let from: usize = if chars.len() > 0 && chars[0] == '+' {
        1
    } else {
        0
    };
    let ghost digits = unsigned(s@);
    assert(digits =~= chars@.skip(from as int));
    if from == chars.len() {
        return None;
    }
    let mut n: u32 = 0;
    let mut i: usize = from;
    assert(digits.take(0) =~= Seq::empty());
    while i < chars.len()
        invariant
            from <= i <= chars@.len(),
            from <= 1,
            digits == chars@.skip(from as int),
            digits == unsigned(s@),
            digits.len() > 0,
            n <= u16::MAX,
            n == number(digits.take(i - from)),
            forall|j: int| 0 <= j < i - from ==> is_digit(#[trigger] digits[j]),
        decreases chars@.len() - i,
    {
        let c = chars[i];
        assert(c == digits[i - from]);
        if c < '0' || c > '9' {
            assert(!is_digit(digits[i - from]));
            return None;
        }
        proof {
            assert(digits.take(i - from + 1).drop_last() =~= digits.take(i - from));
        }
        n = n * 10 + (c as u32 - '0' as u32);
        if n > 65535 {
            proof {
                if forall|j: int| 0 <= j < digits.len() ==> is_digit(#[trigger] digits[j]) {
                    number_grows(digits, i - from + 1);
                }
            }
            return None;
        }
        i += 1;
    }
    assert(digits.take(digits.len() as int) =~= digits);
    Some(n as u16)
}

/// Every character of a decimal number is a digit, and there is at least one.
pub proof fn decimal_is_digits(n: nat)
    ensures
        decimal(n).len() > 0,
        forall|i: int| 0 <= i < decimal(n).len() ==> is_digit(#[trigger] decimal(n)[i]),
    decreases n,
{
    if n >= 10 {
        decimal_is_digits(n / 10);
    }
}

/// Zeros in front of a number are digits too.
pub proof fn padded_is_digits(n: nat, width: nat)
    ensures
        padded(n, width).len() > 0,
        forall|i: int| 0 <= i < padded(n, width).len() ==> is_digit(#[trigger] padded(n, width)[i]),
{
    decimal_is_digits(n);
    let digits = decimal(n);
    if digits.len() < width {
        let fill = (width - digits.len()) as nat;
        assert forall|i: int| 0 <= i < padded(n, width).len() implies is_digit(
            #[trigger] padded(n, width)[i],
        ) by {
            if i >= fill {
                assert(padded(n, width)[i] == digits[i - fill]);
            }
        }
    }
}

/// A number is read back as it was written, with or without zeros in front.
pub proof fn padded_is_read_back(n: nat, width: nat)
    ensures
        number(decimal(n)) == n,
        number(padded(n, width)) == n,
{
    decimal_is_read_back(n);
    let digits = decimal(n);
    if digits.len() < width {
        zeros_add_nothing((width - digits.len()) as nat, digits);
    }
}

proof fn decimal_is_read_back(n: nat)
    ensures
        number(decimal(n)) == n,
    decreases n,
{
    reveal_with_fuel(number, 2);
    if n >= 10 {
        decimal_is_read_back(n / 10);
        assert(decimal(n).drop_last() =~= decimal(n / 10));
    }
}

proof fn zeros_add_nothing(count: nat, digits: Seq<char>)
    ensures
        number(zeros(count) + digits) == number(digits),
    decreases count + digits.len(),
{
    let front = zeros(count);
    if digits.len() > 0 {
        assert((front + digits).drop_last() =~= front + digits.drop_last());
        zeros_add_nothing(count, digits.drop_last());
    } else if count > 0 {
        let fewer = (count - 1) as nat;
        assert((front + digits).drop_last() =~= zeros(fewer) + digits);
        zeros_add_nothing(fewer, digits);
    } else {
        assert(front + digits =~= digits);
    }
}

/// A number only grows as digits are added to it.
proof fn number_grows(digits: Seq<char>, n: int)
    requires
        0 <= n <= digits.len(),
        forall|i: int| 0 <= i < digits.len() ==> is_digit(#[trigger] digits[i]),
    ensures
        number(digits.take(n)) <= number(digits),
    decreases digits.len() - n,
{
    if n < digits.len() {
        number_grows(digits, n + 1);
        assert(digits.take(n + 1).drop_last() =~= digits.take(n));
    } else {
        assert(digits.take(n) =~= digits);
    }
}

/// A text is blank exactly where nothing is left of it once it is trimmed.
pub proof fn blank_is_trimmed_away(s: Seq<char>)
    ensures
        is_blank(s) <==> trimmed(s).len() == 0,
{
    trim_start_is_suffix(s);
    trim_end_keeps(trim_start(s));
    if is_blank(s) && trimmed(s).len() > 0 {
        let rest = trim_start(s);
        assert(is_space(s[s.len() - rest.len()]));
    }
    if trimmed(s).len() == 0 && !is_blank(s) {
        let i = choose|i: int| 0 <= i < s.len() && !is_space(#[trigger] s[i]);
        assert(!is_space(s[i]));
    }
}

/// Trimming the start leaves a suffix, drops white space only, and stops at the
/// first character that is none.
proof fn trim_start_is_suffix(s: Seq<char>)
    ensures
        trim_start(s).len() <= s.len(),
        trim_start(s) == s.skip(s.len() - trim_start(s).len()),
        forall|i: int|
            0 <= i < s.len() - trim_start(s).len() ==> is_space(#[trigger] s[i]),
        trim_start(s).len() > 0 ==> !is_space(trim_start(s)[0]),
    decreases s.len(),
{
    if s.len() > 0 && is_space(s[0]) {
        let tail = s.drop_first();
        trim_start_is_suffix(tail);
        assert(trim_start(s) =~= s.skip(s.len() - trim_start(s).len()));
        assert forall|i: int| 0 <= i < s.len() - trim_start(s).len() implies is_space(
            #[trigger] s[i],
        ) by {
            if i > 0 {
                assert(tail[i - 1] == s[i]);
            }
        }
    } else {
        assert(s.skip(0) =~= s);
    }
}

/// A text that does not begin with white space keeps its first character when
/// its end is trimmed.
proof fn trim_end_keeps(s: Seq<char>)
    requires
        s.len() > 0 ==> !is_space(s[0]),
    ensures
        s.len() > 0 <==> trim_end(s).len() > 0,
    decreases s.len(),
{
    if s.len() > 0 && is_space(s.last()) {
        trim_end_keeps(s.drop_last());
    }
}

/// White space is what Unicode counts as such, by code point: the controls from the tab to the
/// carriage return, the next line, and the seventeen spaces and two separators.
pub proof fn white_space_is_by_code_point(c: char)
    ensures
        ({
            let n = c as int;
            is_space(c) <==> {
                ||| seq![9int, 10, 11, 12, 13, 133].contains(n)
                ||| seq![32int, 160, 5760, 8239, 8287, 12288].contains(n)
                ||| 8192 <= n <= 8202
                ||| seq![8232int, 8233].contains(n)
            }
        }),
{
    let n = c as int;
    let controls = seq![9int, 10, 11, 12, 13, 133];
    let spaces = seq![32int, 160, 5760, 8239, 8287, 12288];
    let separators = seq![8232int, 8233];
    assert(controls[0] == 9 && controls[1] == 10 && controls[2] == 11 && controls[3] == 12
        && controls[4] == 13 && controls[5] == 133);
    assert(spaces[0] == 32 && spaces[1] == 160 && spaces[2] == 5760 && spaces[3] == 8239
        && spaces[4] == 8287 && spaces[5] == 12288);
    assert(separators[0] == 8232 && separators[1] == 8233);
}

/// Blankness is a matter of the single characters: nothing is blank, a character is
/// where it is white space, and a text is where each of its parts is.
pub proof fn blank_texts_are_made_of_white_space(a: Seq<char>, b: Seq<char>, c: char)
    ensures
        is_blank(Seq::empty()),
        is_blank(seq![c]) <==> is_space(c),
        is_blank(a + b) <==> is_blank(a) && is_blank(b),
{
    assert(seq![c][0] == c);
    if is_blank(a + b) {
        assert forall|i: int| 0 <= i < a.len() implies is_space(#[trigger] a[i]) by {
            assert((a + b)[i] == a[i]);
        }
        assert forall|i: int| 0 <= i < b.len() implies is_space(#[trigger] b[i]) by {
            assert((a + b)[a.len() + i] == b[i]);
        }
    }
}

/// Trimming gives back what stands between white space, whatever it is, as long as it
/// neither begins nor ends with white space itself.
pub proof fn trimming_gives_back_the_core(before: Seq<char>, core: Seq<char>, behind: Seq<char>)
    requires
        is_blank(before),
        is_blank(behind),
        core.len() > 0 ==> !is_space(core[0]) && !is_space(core.last()),
    ensures
        trimmed(before + core + behind) == core,
{
    trim_start_drops(before, core + behind);
    assert(before + core + behind =~= before + (core + behind));
    if core.len() > 0 {
        assert((core + behind)[0] == core[0]);
        trim_end_drops(core, behind);
    } else {
        assert(core + behind =~= behind);
        trim_start_drops(behind, Seq::empty());
        assert(behind + Seq::<char>::empty() =~= behind);
        assert(core =~= Seq::empty());
    }
}

proof fn trim_start_drops(before: Seq<char>, rest: Seq<char>)
    requires
        is_blank(before),
    ensures
        trim_start(before + rest) == trim_start(rest),
    decreases before.len(),
{
    if before.len() > 0 {
        let tail = before.drop_first();
        assert(is_space(before[0]));
        assert forall|i: int| 0 <= i < tail.len() implies is_space(#[trigger] tail[i]) by {
            assert(tail[i] == before[i + 1]);
        }
        assert((before + rest).drop_first() =~= tail + rest);
        trim_start_drops(tail, rest);
    } else {
        assert(before + rest =~= rest);
    }
}

proof fn trim_end_drops(core: Seq<char>, behind: Seq<char>)
    requires
        is_blank(behind),
        core.len() > 0,
        !is_space(core.last()),
    ensures
        trim_end(core + behind) == core,
    decreases behind.len(),
{
    if behind.len() > 0 {
        let less = behind.drop_last();
        assert(is_space(behind[behind.len() - 1]));
        assert forall|i: int| 0 <= i < less.len() implies is_space(#[trigger] less[i]) by {
            assert(less[i] == behind[i]);
        }
        assert((core + behind).drop_last() =~= core + less);
        trim_end_drops(core, less);
    } else {
        assert(core + behind =~= core);
    }
}

/// Every text has a core that trimming gives back, between two blank parts.
pub proof fn trimming_takes_white_space_only(s: Seq<char>)
    ensures
        exists|before: Seq<char>, behind: Seq<char>|
            is_blank(before) && is_blank(behind) && s == #[trigger] (before + trimmed(s)
                + behind),
        trimmed(s).len() > 0 ==> !is_space(trimmed(s)[0]) && !is_space(trimmed(s).last()),
{
    let rest = trim_start(s);
    trim_start_is_suffix(s);
    trim_end_is_prefix(rest);
    let before = s.take(s.len() - rest.len());
    let behind = rest.skip(trimmed(s).len() as int);
    assert forall|i: int| 0 <= i < behind.len() implies is_space(#[trigger] behind[i]) by {
        assert(behind[i] == rest[trimmed(s).len() + i]);
    }
    assert(is_blank(before));
    assert(s =~= before + trimmed(s) + behind);
}

/// Trimming the end leaves a prefix, drops white space only, and stops at the last
/// character that is none.
proof fn trim_end_is_prefix(s: Seq<char>)
    ensures
        trim_end(s).len() <= s.len(),
        trim_end(s) == s.take(trim_end(s).len() as int),
        forall|i: int| trim_end(s).len() <= i < s.len() ==> is_space(#[trigger] s[i]),
        trim_end(s).len() > 0 ==> !is_space(trim_end(s).last()),
    decreases s.len(),
{
    if s.len() > 0 && is_space(s.last()) {
        let less = s.drop_last();
        trim_end_is_prefix(less);
        assert(trim_end(s) =~= s.take(trim_end(s).len() as int));
        assert forall|i: int| trim_end(s).len() <= i < s.len() implies is_space(
            #[trigger] s[i],
        ) by {
            if i < less.len() {
                assert(less[i] == s[i]);
            }
        }
    } else {
        assert(s.take(s.len() as int) =~= s);
    }
}

/// A text begins and ends with the texts that it is put together from, and with no
/// others of their length.
pub proof fn texts_begin_and_end_with_their_parts(
    a: Seq<char>,
    b: Seq<char>,
    part: Seq<char>,
)
    ensures
        starts_with(a + b, a),
        ends_with(a + b, b),
        part.len() == a.len() && starts_with(a + b, part) ==> part == a,
        part.len() == b.len() && ends_with(a + b, part) ==> part == b,
        starts_with(a, part) ==> part.len() <= a.len(),
        ends_with(a, part) ==> part.len() <= a.len(),
{
    assert((a + b).take(a.len() as int) =~= a);
    assert((a + b).skip((a + b).len() - b.len()) =~= b);
}

/// Every text of digits is the decimal form of a number, with zeros in front of it or
/// without.
proof fn digits_spell_their_number(s: Seq<char>) -> (count: nat)
    requires
        s.len() > 0,
        forall|i: int| 0 <= i < s.len() ==> is_digit(#[trigger] s[i]),
    ensures
        s == zeros(count) + decimal(number(s)),
    decreases s.len(),
{
    let rest = s.drop_last();
    let d = (s.last() as nat - '0' as nat) as nat;
    assert(is_digit(s[s.len() - 1]));
    assert(digit(d as int) == s.last());
    if rest.len() == 0 {
        assert(number(rest) == 0);
        assert(s =~= zeros(0) + decimal(number(s)));
        0
    } else {
        assert forall|i: int| 0 <= i < rest.len() implies is_digit(#[trigger] rest[i]) by {
            assert(rest[i] == s[i]);
        }
        let count = digits_spell_their_number(rest);
        let n = number(rest);
        assert(s =~= rest.push(s.last()));
        if n == 0 {
            assert(decimal(0) =~= seq!['0']);
            assert(decimal(number(s)) =~= seq![s.last()]);
            assert(s =~= zeros(count + 1) + decimal(number(s)));
            count + 1
        } else {
            assert(number(s) / 10 == n && number(s) % 10 == d);
            assert(decimal(number(s)) == decimal(n).push(s.last()));
            assert(s =~= zeros(count) + decimal(number(s)));
            count
        }
    }
}

/// A decimal number has no zero in front, unless it is zero.
pub proof fn decimals_have_no_leading_zero(n: nat)
    ensures
        decimal(n)[0] == '0' <==> n == 0,
    decreases n,
{
    if n >= 10 {
        decimals_have_no_leading_zero(n / 10);
        decimal_is_digits(n / 10);
    }
}

/// A sign stands in front of negative numbers, and of no others.
pub proof fn signs_mark_negative_numbers(n: int)
    ensures
        n < 0 ==> signed_decimal(n)[0] == '-' && number(signed_decimal(n).drop_first()) == -n,
        n >= 0 ==> is_digit(signed_decimal(n)[0]) && number(signed_decimal(n)) == n,
        n < 0 ==> signed_decimal(n).drop_first() == decimal((-n) as nat),
        n >= 0 ==> signed_decimal(n) == decimal(n as nat),
{
    let size = (if n < 0 { -n } else { n }) as nat;
    decimal_is_read_back(size);
    decimal_is_digits(size);
    if n < 0 {
        assert(signed_decimal(n).drop_first() =~= decimal(size));
    }
}

/// A number keeps its digits however wide it is made: only zeros are put in front, and
/// only as many as are missing.
pub proof fn padding_fills_up_with_zeros(n: nat, width: nat)
    ensures
        padded(n, width).len() == (if decimal(n).len() < width {
            width
        } else {
            decimal(n).len()
        }),
        ends_with(padded(n, width), decimal(n)),
        forall|i: int|
            0 <= i < padded(n, width).len() - decimal(n).len() ==> #[trigger] padded(n, width)[i]
                == '0',
{
    assert(padded(n, width).skip(padded(n, width).len() - decimal(n).len()) =~= decimal(n));
}

/// A 16-bit number is read from every way to spell it: with a plus sign or without, with
/// zeros in front or without. A larger number is not read.
pub proof fn spelled_numbers_are_read(n: nat, count: nat)
    ensures
        ({
            let spelled = zeros(count) + decimal(n);
            if n <= u16::MAX {
                &&& u16_of(spelled) == Some(n as u16)
                &&& u16_of(seq!['+'] + spelled) == Some(n as u16)
            } else {
                &&& u16_of(spelled) is None
                &&& u16_of(seq!['+'] + spelled) is None
            }
        }),
{
    let fill = zeros(count);
    let spelled = fill + decimal(n);
    zeros_add_nothing(count, decimal(n));
    decimal_is_read_back(n);
    decimal_is_digits(n);
    assert forall|i: int| 0 <= i < spelled.len() implies is_digit(#[trigger] spelled[i]) by {
        if i >= count {
            assert(spelled[i] == decimal(n)[i - count]);
        }
    }
    assert(is_digit(spelled[0]));
    assert(unsigned(spelled) == spelled);
    assert((seq!['+'] + spelled)[0] == '+');
    assert((seq!['+'] + spelled).drop_first() =~= spelled);
}

/// What is read as a 16-bit number spells it: there is nothing else in the text.
pub proof fn only_spelled_numbers_are_read(s: Seq<char>)
    requires
        u16_of(s) is Some,
    ensures
        exists|count: nat|
            ({
                let spelled = #[trigger] zeros(count) + decimal(
                    u16_of(s)->0 as nat,
                );
                s == spelled || s == seq!['+'] + spelled
            }),
{
    let digits = unsigned(s);
    let count = digits_spell_their_number(digits);
    let spelled = zeros(count) + decimal(u16_of(s)->0 as nat);
    assert(digits == spelled);
    if s[0] == '+' {
        assert(s =~= seq!['+'] + spelled);
    }
}

}
