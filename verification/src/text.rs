//! Decimal digits and the pieces of text that are put together from them.

use vstd::prelude::*;

verus! {

/// `String::push` appends one character.
pub assume_specification[ String::push ](s: &mut String, c: char)
    ensures
        final(s)@ == old(s)@.push(c),
;

/// The ten decimal digits, in order.
pub open spec fn digit_chars() -> Seq<char> {
    seq!['0', '1', '2', '3', '4', '5', '6', '7', '8', '9']
}

/// The last `width` decimal digits of `n`, with leading zeros.
pub open spec fn padded(n: int, width: nat) -> Seq<char>
    decreases width,
{
    if width == 0 {
        Seq::empty()
    } else {
        padded(n / 10, (width - 1) as nat).push(digit_chars()[n % 10])
    }
}

/// The character for one decimal digit.
fn digit(d: u32) -> (c: char)
    requires
        d < 10,
    ensures
        c == digit_chars()[d as int],
{
    match d {
        0 => '0',
        1 => '1',
        2 => '2',
        3 => '3',
        4 => '4',
        5 => '5',
        6 => '6',
        7 => '7',
        8 => '8',
        _ => '9',
    }
}

/// Appends the last two decimal digits of `n`.
pub(crate) fn push_two_digits(out: &mut String, n: u32)
    ensures
        final(out)@ == old(out)@ + padded(n as int, 2),
{
    out.push(digit((n / 10) % 10));
    out.push(digit(n % 10));
    proof {
        reveal_with_fuel(padded, 3);
        assert(out@ =~= old(out)@ + padded(n as int, 2));
    }
}

/// Appends the last five decimal digits of `n`.
pub(crate) fn push_five_digits(out: &mut String, n: u32)
    ensures
        final(out)@ == old(out)@ + padded(n as int, 5),
{
    out.push(digit((n / 10000) % 10));
    out.push(digit((n / 1000) % 10));
    out.push(digit((n / 100) % 10));
    out.push(digit((n / 10) % 10));
    out.push(digit(n % 10));
    proof {
        reveal_with_fuel(padded, 6);
        assert(out@ =~= old(out)@ + padded(n as int, 5));
    }
}

/// A number in decimal digits, without leading zeros.
pub open spec fn decimal(n: nat) -> Seq<char>
    decreases n,
{
    if n < 10 {
        seq![digit_chars()[n as int]]
    } else {
        decimal(n / 10).push(digit_chars()[(n % 10) as int])
    }
}

/// Appends a number in decimal digits.
pub(crate) fn push_decimal(out: &mut String, n: usize)
    ensures
        final(out)@ == old(out)@ + decimal(n as nat),
    decreases n,
{
    if n >= 10 {
        push_decimal(out, n / 10);
    }
    out.push(digit((n % 10) as u32));
    assert(out@ =~= old(out)@ + decimal(n as nat));
}

/// There are as many digits as asked for.
pub proof fn lemma_padded_len(n: int, width: nat)
    ensures
        padded(n, width).len() == width,
    decreases width,
{
    if width > 0 {
        lemma_padded_len(n / 10, (width - 1) as nat);
    }
}

/// Numbers that fit the width are written differently if they differ.
pub proof fn lemma_padded_distinct(m: int, n: int, width: nat)
    requires
        0 <= m < vstd::arithmetic::power::pow(10, width),
        0 <= n < vstd::arithmetic::power::pow(10, width),
        padded(m, width) == padded(n, width),
    ensures
        m == n,
    decreases width,
{
    vstd::arithmetic::power::lemma_pow0(10);
    if width > 0 {
        let w = (width - 1) as nat;
        reveal(vstd::arithmetic::power::pow);
        let a = padded(m / 10, w);
        let b = padded(n / 10, w);
        lemma_padded_len(m / 10, w);
        lemma_padded_len(n / 10, w);
        assert(a =~= a.push(digit_chars()[m % 10]).drop_last());
        assert(b =~= b.push(digit_chars()[n % 10]).drop_last());
        assert(a.push(digit_chars()[m % 10]).last() == b.push(digit_chars()[n % 10]).last());
        lemma_padded_distinct(m / 10, n / 10, w);
        assert(m % 10 == n % 10);
    }
}

/// The characters that Unicode counts as white space.
pub open spec fn white(c: char) -> bool {
    let n = c as u32;
    ||| 0x9 <= n <= 0xD
    ||| n == 0x20
    ||| n == 0x85
    ||| n == 0xA0
    ||| n == 0x1680
    ||| 0x2000 <= n <= 0x200A
    ||| n == 0x2028
    ||| n == 0x2029
    ||| n == 0x202F
    ||| n == 0x205F
    ||| n == 0x3000
}

/// Whether Unicode counts the character as white space.
pub fn is_white(c: char) -> (r: bool)
    ensures
        r == white(c),
{
    let n: u32 = c as u32;
    (0x9 <= n && n <= 0xD) || n == 0x20 || n == 0x85 || n == 0xA0 || n == 0x1680 || (0x2000 <= n
        && n <= 0x200A) || n == 0x2028 || n == 0x2029 || n == 0x202F || n == 0x205F || n == 0x3000
}

/// How many white characters the text begins with.
pub open spec fn leading(s: Seq<char>) -> nat
    decreases s.len(),
{
    if s.len() == 0 || !white(s[0]) {
        0
    } else {
        1 + leading(s.drop_first())
    }
}

/// How many white characters the text ends with.
pub open spec fn trailing(s: Seq<char>) -> nat
    decreases s.len(),
{
    if s.len() == 0 || !white(s.last()) {
        0
    } else {
        1 + trailing(s.drop_last())
    }
}

/// The text without the white space before and after it.
pub open spec fn trimmed(s: Seq<char>) -> Seq<char> {
    let rest = s.skip(leading(s) as int);
    rest.take(rest.len() - trailing(rest))
}

/// The text without the white space before and after it.
pub fn trim(s: &str) -> (r: &str)
    ensures
        r@ == trimmed(s@),
{
    let len: usize = s.unicode_len();
    let mut start: usize = 0;
    assert(s@.skip(0) =~= s@);
    while start < len && is_white(s.get_char(start))
        invariant
            start <= len == s@.len(),
            leading(s@) == start + leading(s@.skip(start as int)),
        decreases len - start,
    {
        assert(s@.skip(start as int).drop_first() =~= s@.skip(start + 1));
        start = start + 1;
    }
    let ghost rest = s@.skip(start as int);
    assert(leading(s@) == start);
    let mut end: usize = len;
    assert(rest.take((end - start) as int) =~= rest);
    while start < end && is_white(s.get_char(end - 1))
        invariant
            start <= end <= len == s@.len(),
            rest == s@.skip(start as int),
            trailing(rest) == (len - end) + trailing(rest.take(end - start)),
        decreases end,
    {
        assert(rest.take(end - start).drop_last() =~= rest.take(end - 1 - start));
        assert(rest.take(end - start).last() == s@[end - 1]);
        end = end - 1;
    }
    proof {
        if start < end {
            assert(rest.take(end - start).last() == s@[end - 1]);
        }
        assert(trailing(rest) == len - end);
        assert(s@.subrange(start as int, end as int) =~= rest.take(rest.len() - trailing(rest)));
    }
    s.substring_char(start, end)
}

/// The number that some decimal digits read as.
pub open spec fn reading(s: Seq<char>) -> int
    decreases s.len(),
{
    if s.len() == 0 {
        0
    } else {
        10 * reading(s.drop_last()) + (s.last() as int - '0' as int)
    }
}

/// There are none but decimal digits.
pub open spec fn all_digits(s: Seq<char>) -> bool {
    forall|i: int| 0 <= i < s.len() ==> '0' as int <= #[trigger] s[i] as int <= '9' as int
}

/// The digits of a number that fits the width read as that number.
pub proof fn law_padded_digits_read_as_the_number(n: int, width: nat)
    requires
        0 <= n < vstd::arithmetic::power::pow(10, width),
    ensures
        padded(n, width).len() == width,
        all_digits(padded(n, width)),
        reading(padded(n, width)) == n,
    decreases width,
{
    vstd::arithmetic::power::lemma_pow0(10);
    lemma_padded_len(n, width);
    if width > 0 {
        let w = (width - 1) as nat;
        reveal(vstd::arithmetic::power::pow);
        law_padded_digits_read_as_the_number(n / 10, w);
        let front = padded(n / 10, w);
        let s = padded(n, width);
        assert(s.drop_last() =~= front);
        assert(s.last() as int == '0' as int + n % 10);
        assert forall|i: int| 0 <= i < s.len() implies '0' as int <= #[trigger] s[i] as int
            <= '9' as int by {
            if i < front.len() {
                assert(s[i] == front[i]);
            }
        }
    }
}

/// The decimal digits of a number read as it, and do not begin with a zero unless that is the
/// number.
pub proof fn law_decimal_digits_read_as_the_number(n: nat)
    ensures
        decimal(n).len() > 0,
        all_digits(decimal(n)),
        reading(decimal(n)) == n,
        n > 0 ==> decimal(n)[0] != '0',
        n == 0 ==> decimal(n) == seq!['0'],
    decreases n,
{
    let s = decimal(n);
    if n < 10 {
        assert(s.drop_last() =~= Seq::<char>::empty());
        assert(s.last() as int == '0' as int + n);
        assert(reading(s.drop_last()) == 0);
    } else {
        law_decimal_digits_read_as_the_number(n / 10);
        let front = decimal(n / 10);
        assert(s.drop_last() =~= front);
        assert(s[0] == front[0]);
        assert(s.last() as int == '0' as int + n % 10);
        assert forall|i: int| 0 <= i < s.len() implies '0' as int <= #[trigger] s[i] as int
            <= '9' as int by {
            if i < front.len() {
                assert(s[i] == front[i]);
            }
        }
    }
}

/// Trimming takes white space off both ends and nothing else: what is left begins and ends
/// with another character, or is empty.
pub proof fn law_trimming_takes_white_space_off(s: &str, r: &str)
    requires
        call_ensures(trim, (s,), r),
    ensures
        exists|a: int, b: int|
            0 <= a <= b <= s@.len() && r@ == #[trigger] s@.subrange(a, b) && (forall|i: int|
                0 <= i < a ==> white(#[trigger] s@[i])) && (forall|i: int|
                b <= i < s@.len() ==> white(#[trigger] s@[i])),
        r@.len() > 0 ==> !white(r@[0]) && !white(r@.last()),
{
    let a = leading(s@) as int;
    lemma_leading(s@);
    let rest = s@.skip(a);
    lemma_trailing(rest);
    let b = s@.len() - trailing(rest);
    assert(r@ =~= s@.subrange(a, b));
    assert forall|i: int| b <= i < s@.len() implies white(#[trigger] s@[i]) by {
        assert(rest[i - a] == s@[i]);
    }
    if r@.len() > 0 {
        assert(r@[0] == rest[0]);
        assert(r@.last() == rest[rest.len() - trailing(rest) - 1]);
    }
}

/// What stands before the first other character is white.
proof fn lemma_leading(s: Seq<char>)
    ensures
        leading(s) <= s.len(),
        forall|i: int| 0 <= i < leading(s) ==> white(#[trigger] s[i]),
        leading(s) < s.len() ==> !white(s[leading(s) as int]),
    decreases s.len(),
{
    if s.len() > 0 && white(s[0]) {
        let tail = s.drop_first();
        lemma_leading(tail);
        assert forall|i: int| 0 <= i < leading(s) implies white(#[trigger] s[i]) by {
            if i > 0 {
                assert(s[i] == tail[i - 1]);
            }
        }
    }
}

/// What stands after the last other character is white.
proof fn lemma_trailing(s: Seq<char>)
    ensures
        trailing(s) <= s.len(),
        forall|i: int| s.len() - trailing(s) <= i < s.len() ==> white(#[trigger] s[i]),
        trailing(s) < s.len() ==> !white(s[s.len() - trailing(s) - 1]),
    decreases s.len(),
{
    if s.len() > 0 && white(s.last()) {
        let front = s.drop_last();
        lemma_trailing(front);
        assert forall|i: int| s.len() - trailing(s) <= i < s.len() implies white(
            #[trigger] s[i],
        ) by {
            if i < s.len() - 1 {
                assert(s[i] == front[i]);
            }
        }
    }
}

} // verus!
