use vstd::prelude::*;
use vstd::string::*;

verus! {

/// The ASCII decimal digit for `d < 10`.
pub open spec fn digit_char(d: nat) -> char {
    ((d + 48) as u8) as char
}

/// Decimal rendering of a natural number, without leading zeros
/// (what `Display` prints for an unsigned integer).
pub open spec fn dec(n: nat) -> Seq<char>
    decreases n,
{
    if n < 10 {
        seq![digit_char(n)]
    } else {
        dec(n / 10).push(digit_char(n % 10))
    }
}

/// Appends one character to a `String` (`String::push`).
#[verifier::external_body]
pub fn push_char(s: &mut String, c: char)
    ensures
        final(s)@ == old(s)@.push(c),
{
    s.push(c);
}

/// Appends the decimal rendering of `n`.
pub fn push_decimal(out: &mut String, n: u64)
    ensures
        final(out)@ == old(out)@ + dec(n as nat),
    decreases n,
{
    if n >= 10 {
        push_decimal(out, n / 10);
    }
    let d: u8 = (n % 10) as u8;
    push_char(out, (d + 48) as char);
    proof {
        assert(dec(n as nat) == if n < 10 {
            seq![digit_char(n as nat)]
        } else {
            dec((n / 10) as nat).push(digit_char((n % 10) as nat))
        });
    }
}

/// Decimal rendering of `n` as a fresh string.
pub fn decimal(n: u64) -> (r: String)
    ensures
        r@ == dec(n as nat),
{
    let mut s = String::new();
    push_decimal(&mut s, n);
    assert(s@ =~= dec(n as nat));
    s
}

/// Appends a string slice.
pub fn push_str(out: &mut String, s: &str)
    ensures
        final(out)@ == old(out)@ + s@,
{
    out.append(s);
}

/// An ASCII decimal digit.
pub open spec fn is_digit(c: char) -> bool {
    48 <= (c as u32) <= 57
}

/// The number that a string of decimal digits denotes.
pub open spec fn digits_value(s: Seq<char>) -> nat
    decreases s.len(),
{
    if s.len() == 0 {
        0
    } else {
        digits_value(s.drop_last()) * 10 + ((s.last() as u32) - 48) as nat
    }
}

pub proof fn lemma_digit_char(d: nat)
    requires
        d < 10,
    ensures
        digit_char(d) as u32 == d + 48,
{
}

/// `dec(n)` is the usual decimal numeral of `n`: one or more digits, no
/// leading zero, and it reads back as `n`.
pub proof fn lemma_dec_reads_back(n: nat)
    ensures
        dec(n).len() >= 1,
        forall|i: int| 0 <= i < dec(n).len() ==> is_digit(#[trigger] dec(n)[i]),
        digits_value(dec(n)) == n,
        dec(n).len() > 1 ==> dec(n)[0] != '0',
    decreases n,
{
    if n < 10 {
        lemma_digit_char(n);
        assert(dec(n).drop_last() =~= Seq::<char>::empty());
        assert(digits_value(Seq::<char>::empty()) == 0);
        assert(digits_value(dec(n)) == digits_value(dec(n).drop_last()) * 10 + ((dec(n).last()
            as u32) - 48) as nat);
    } else {
        lemma_dec_reads_back(n / 10);
        lemma_digit_char(n % 10);
        let d = dec(n);
        let h = dec(n / 10);
        assert(d == h.push(digit_char(n % 10)));
        assert(d.drop_last() =~= h);
        assert forall|i: int| 0 <= i < d.len() implies is_digit(#[trigger] d[i]) by {
            if i < h.len() {
                assert(d[i] == h[i]);
            }
        }
        assert(d[0] == h[0]);
        if h.len() == 1 {
            assert(n / 10 < 10) by {
                if n / 10 >= 10 {
                    assert(dec(n / 10) == dec(n / 10 / 10).push(digit_char(n / 10 % 10)));
                    lemma_dec_reads_back(n / 10 / 10);
                }
            }
            lemma_digit_char(n / 10);
        }
        assert(d.last() == digit_char(n % 10));
        assert(digits_value(d) == digits_value(h) * 10 + ((d.last() as u32) - 48) as nat);
        assert(n == (n / 10) * 10 + n % 10);
    }
}

} // verus!
