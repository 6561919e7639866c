//! Decimal rendering of unsigned integers as ASCII bytes and characters.
use vstd::prelude::*;

verus! {

/// ASCII decimal digits of `n`, most significant first, with no leading zero.
pub open spec fn decimal_digits(n: nat) -> Seq<u8>
    decreases n,
{
    if n < 10 {
        seq![(48 + n) as u8]
    } else {
        decimal_digits(n / 10).push((48 + n % 10) as u8)
    }
}

/// The same digits as characters.
pub open spec fn decimal_chars(n: nat) -> Seq<char> {
    decimal_digits(n).map_values(|b: u8| b as char)
}

/// Every digit of `decimal_digits(n)` is an ASCII digit.
pub proof fn lemma_decimal_digits_are_digits(n: nat)
    ensures
        decimal_digits(n).len() >= 1,
        forall|i: int| 0 <= i < decimal_digits(n).len() ==> 48 <= #[trigger] decimal_digits(n)[i] <= 57,
    decreases n,
{
    if n >= 10 {
        lemma_decimal_digits_are_digits(n / 10);
    }
}

/// Appends the decimal digits of `n` to `out`.
pub fn push_decimal(out: &mut Vec<u8>, n: u64)
    ensures
        final(out)@ == old(out)@ + decimal_digits(n as nat),
    decreases n,
{
    if n >= 10 {
        push_decimal(out, n / 10);
    }
    out.push(48u8 + (n % 10) as u8);
    proof {
        assert(old(out)@ + decimal_digits(n as nat) =~= old(out)@ + (if n >= 10 {
            decimal_digits((n / 10) as nat)
        } else {
            Seq::<u8>::empty()
        }).push((48 + n % 10) as u8));
    }
}

/// Appends the decimal digits of `n` to `out` as characters.
pub fn push_decimal_chars(out: &mut Vec<char>, n: u64)
    ensures
        final(out)@ == old(out)@ + decimal_chars(n as nat),
    decreases n,
{
    if n >= 10 {
        push_decimal_chars(out, n / 10);
    }
    let d: u8 = 48u8 + (n % 10) as u8;
    out.push(d as char);
    proof {
        let ds = decimal_digits(n as nat);
        let prefix = if n >= 10 {
            decimal_digits((n / 10) as nat)
        } else {
            Seq::<u8>::empty()
        };
        assert(ds =~= prefix.push(d));
        assert(decimal_chars(n as nat) =~= prefix.map_values(|b: u8| b as char).push(d as char));
        if n >= 10 {
            assert(decimal_chars((n / 10) as nat) == prefix.map_values(|b: u8| b as char));
        }
        assert(old(out)@ + decimal_chars(n as nat) =~= old(out)@ + prefix.map_values(
            |b: u8| b as char,
        ).push(d as char));
    }
}

/// Appends the decimal digits of `n` to `s`.
pub fn push_decimal_str(s: &mut String, n: u64)
    ensures
        final(s)@ == old(s)@ + decimal_chars(n as nat),
{
    let mut cs: Vec<char> = Vec::new();
    push_decimal_chars(&mut cs, n);
    assert(cs@ == decimal_chars(n as nat));
    let mut i: usize = 0;
    while i < cs.len()
        invariant
            i <= cs@.len(),
            cs@ == decimal_chars(n as nat),
            s@ == old(s)@ + cs@.subrange(0, i as int),
        decreases cs@.len() - i,
    {
        s.push(cs[i]);
        assert(cs@.subrange(0, i as int + 1) =~= cs@.subrange(0, i as int).push(cs@[i as int]));
        assert(old(s)@ + cs@.subrange(0, i as int + 1) =~= (old(s)@ + cs@.subrange(0, i as int)).push(cs@[i as int]));
        i = i + 1;
    }
    assert(cs@.subrange(0, cs@.len() as int) =~= cs@);
}

/// Whether a character is an ASCII digit.
pub open spec fn is_digit(c: char) -> bool {
    '0' <= c && c <= '9'
}

/// The number the ASCII digits `d` spell, most significant first.
pub open spec fn digits_value(d: Seq<char>) -> nat
    decreases d.len(),
{
    if d.len() == 0 {
        0
    } else {
        digits_value(d.drop_last()) * 10 + (d.last() as int - 48) as nat
    }
}

/// `s` without a leading '+'.
pub open spec fn without_plus(s: Seq<char>) -> Seq<char> {
    if s.len() > 0 && s[0] == '+' {
        s.subrange(1, s.len() as int)
    } else {
        s
    }
}

/// What the `from_str` of an unsigned integer type whose largest value is
/// `max` reads from `s`: an optional '+' and then one or more ASCII digits
/// whose value is at most `max`.
pub open spec fn spec_parse_unsigned(s: Seq<char>, max: nat) -> Option<nat> {
    let d = without_plus(s);
    if d.len() > 0 && (forall|i: int| 0 <= i < d.len() ==> is_digit(#[trigger] d[i]))
        && digits_value(d) <= max {
        Some(digits_value(d))
    } else {
        None
    }
}

/// The number written in `cs[from..to]`, at most `max` (see `spec_parse_unsigned`).
pub fn parse_unsigned_range(cs: &Vec<char>, from: usize, to: usize, max: u64) -> (r: Option<u64>)
    requires
        from <= to <= cs@.len(),
    ensures
        match r {
            Some(n) => spec_parse_unsigned(cs@.subrange(from as int, to as int), max as nat) == Some(
                n as nat,
            ),
            None => spec_parse_unsigned(cs@.subrange(from as int, to as int), max as nat) is None,
        },
{
    let ghost s = cs@.subrange(from as int, to as int);
    let mut start = from;
    if from < to && cs[from] == '+' {
        start = from + 1;
    }
    let ghost d = cs@.subrange(start as int, to as int);
    assert(d =~= without_plus(s));
    if start == to {
        return None;
    }
    let mut v: u64 = 0;
    let mut overflow = false;
    let mut i: usize = start;
    while i < to
        invariant
            from <= start <= i <= to <= cs@.len(),
            d == cs@.subrange(start as int, to as int),
            s == cs@.subrange(from as int, to as int),
            d == without_plus(s),
            forall|j: int| start <= j < i ==> is_digit(#[trigger] cs@[j]),
            !overflow ==> v as nat == digits_value(cs@.subrange(start as int, i as int)),
            overflow ==> digits_value(cs@.subrange(start as int, i as int)) > max,
            !overflow ==> v <= max,
        decreases to - i,
    {
        let c = cs[i];
        if !('0' <= c && c <= '9') {
            assert(!is_digit(d[i - start]));
            return None;
        }
        let dg: u64 = (c as u32 - 48) as u64;
        let ghost pre = cs@.subrange(start as int, i as int);
        assert(cs@.subrange(start as int, i as int + 1).drop_last() =~= pre);
        assert(cs@.subrange(start as int, i as int + 1).last() == c);
        if !overflow {
            if dg > max || v > (max - dg) / 10 {
                assert(v * 10 + dg > max) by (nonlinear_arith)
                    requires
                        dg > max || v > (max - dg) / 10,
                        dg <= 9,
                ;
                overflow = true;
            } else {
                assert(v * 10 + dg <= max) by (nonlinear_arith)
                    requires
                        dg <= max,
                        v <= (max - dg) / 10,
                        dg <= 9,
                ;
                v = v * 10 + dg;
            }
        }
        i = i + 1;
    }
    assert(cs@.subrange(start as int, to as int) =~= d);
    assert forall|j: int| 0 <= j < d.len() implies is_digit(#[trigger] d[j]) by {
        assert(d[j] == cs@[j + start]);
    }
    if overflow {
        None
    } else {
        Some(v)
    }
}

} // verus!
