//! Character-level helpers shared by the other modules: decimal rendering
//! of integers and conversion between strings and character vectors.

use vstd::prelude::*;

verus! {

/// The character for a decimal digit.
pub open spec fn digit_char(d: nat) -> char {
    ((d + 48) as u8) as char
}

/// The shortest decimal rendering of `n`.
pub open spec fn decimal(n: nat) -> Seq<char>
    decreases n,
{
    if n < 10 {
        seq![digit_char(n)]
    } else {
        decimal(n / 10).push(digit_char(n % 10))
    }
}

/// `n` in decimal, left-padded with `'0'` to at least `width` characters.
pub open spec fn padded(n: nat, width: nat) -> Seq<char> {
    let d = decimal(n);
    if d.len() < width {
        Seq::new((width - d.len()) as nat, |_i: int| '0') + d
    } else {
        d
    }
}

/// Appends the decimal rendering of `n` to `out`.
pub fn push_decimal(out: &mut Vec<char>, n: u64)
    ensures
        final(out)@ == old(out)@ + decimal(n as nat),
    decreases n,
{
    if n < 10 {
        out.push(((n as u8) + 48u8) as char);
    } else {
        push_decimal(out, n / 10);
        out.push((((n % 10) as u8) + 48u8) as char);
    }
}

/// Appends `n` in decimal, left-padded with `'0'` to at least `width` characters.
pub fn push_padded(out: &mut Vec<char>, n: u64, width: usize)
    ensures
        final(out)@ == old(out)@ + padded(n as nat, width as nat),
{
    let mut digits: Vec<char> = Vec::new();
    push_decimal(&mut digits, n);
    assert(digits@ == decimal(n as nat));
    let start = out.len();
    if digits.len() < width {
        let fill = width - digits.len();
        let mut i: usize = 0;
        while i < fill
            invariant
                i <= fill,
                out@.len() == start + i,
                out@.subrange(0, start as int) == old(out)@,
                forall|j: int| start <= j < out@.len() ==> out@[j] == '0',
            decreases fill - i,
        {
            out.push('0');
            i = i + 1;
        }
    }
    let mid = out.len();
    let mut k: usize = 0;
    while k < digits.len()
        invariant
            k <= digits@.len(),
            out@.len() == mid + k,
            out@.subrange(0, mid as int) == old(out)@ + (if digits@.len() < width {
                Seq::new((width - digits@.len()) as nat, |_i: int| '0')
            } else {
                Seq::<char>::empty()
            }),
            out@.subrange(mid as int, out@.len() as int) == digits@.subrange(0, k as int),
        decreases digits@.len() - k,
    {
        proof {
            assert(out@.subrange(0, mid as int) == out@.push(digits@[k as int]).subrange(0, mid as int));
        }
        out.push(digits[k]);
        assert(out@.subrange(mid as int, out@.len() as int) =~= digits@.subrange(0, k + 1));
        k = k + 1;
    }
    assert(out@ =~= out@.subrange(0, mid as int) + out@.subrange(mid as int, out@.len() as int));
    assert(digits@.subrange(0, digits@.len() as int) =~= digits@);
    if digits.len() < width {
        assert(out@.subrange(0, mid as int) =~= old(out)@ + Seq::new((width - digits@.len()) as nat, |_i: int| '0'));
    } else {
        assert(out@.subrange(0, mid as int) =~= old(out)@);
    }
    assert(out@ =~= old(out)@ + padded(n as nat, width as nat));
}

/// The characters of `s`, in order.
pub fn chars_of(s: &str) -> (r: Vec<char>)
    ensures
        r@ == s@,
{
    let n = s.unicode_len();
    let mut r: Vec<char> = Vec::new();
    let mut i: usize = 0;
    while i < n
        invariant
            n == s@.len(),
            i <= n,
            r@ == s@.subrange(0, i as int),
        decreases n - i,
    {
        r.push(s.get_char(i));
        i = i + 1;
        assert(r@ =~= s@.subrange(0, i as int));
    }
    assert(r@ =~= s@);
    r
}

/// Appends the characters of `s` to `out`.
pub fn push_str(out: &mut Vec<char>, s: &str)
    ensures
        final(out)@ == old(out)@ + s@,
{
    let mut c = chars_of(s);
    out.append(&mut c);
}

/// Relies on `String`'s `FromIterator<&char>`: the string holds the
/// characters in the order they are visited.
#[verifier::external_body]
pub(crate) fn string_of(chars: &[char]) -> (r: String)
    ensures
        r@ == chars@,
{
    String::from_iter(chars.iter())
}

} // verus!
