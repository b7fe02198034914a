//! A reference reader for the C literal tokens that literals render as, and
//! the law that reading a rendered literal gives back its value.
use vstd::prelude::*;

use crate::atom::is_digit;
use crate::expr::{abs, decimal_text, literal_text, padded_digits, Literal};
use crate::text::{digit_char, int_digits, nat_digits};

verus! {

/// A non-empty run of decimal digits.
pub open spec fn all_digits(t: Seq<char>) -> bool {
    t.len() > 0 && forall|i: int| 0 <= i < t.len() ==> is_digit(#[trigger] t[i])
}

/// The number that a run of decimal digits denotes.
pub open spec fn digits_value(t: Seq<char>) -> nat
    decreases t.len(),
{
    if t.len() == 0 {
        0
    } else {
        digits_value(t.drop_last()) * 10 + ((t.last() as u32) - 48) as nat
    }
}

/// The sign of a numeral token and the text after it.
pub open spec fn split_sign(t: Seq<char>) -> (bool, Seq<char>) {
    if t.len() > 0 && t[0] == '-' {
        (true, t.skip(1))
    } else {
        (false, t)
    }
}

pub open spec fn signed(negative: bool, n: nat) -> int {
    if negative {
        -n
    } else {
        n as int
    }
}

/// Reads an integer token: an optional minus sign, then digits.
pub open spec fn read_int(t: Seq<char>) -> Option<int> {
    let (neg, body) = split_sign(t);
    if all_digits(body) {
        Some(signed(neg, digits_value(body)))
    } else {
        None
    }
}

/// A position of a point that splits `body` into two runs of digits.
pub open spec fn point_at(body: Seq<char>, k: int) -> bool {
    0 <= k < body.len() && body[k] == '.' && all_digits(body.take(k)) && all_digits(
        body.skip(k + 1),
    )
}

/// Reads a decimal token: an optional minus sign, digits and optionally a
/// point and more digits. Gives the number as a mantissa over ten to the
/// power of the count of digits after the point.
pub open spec fn read_decimal(t: Seq<char>) -> Option<(int, nat)> {
    let (neg, body) = split_sign(t);
    if all_digits(body) {
        Some((signed(neg, digits_value(body)), 0))
    } else if exists|k: int| point_at(body, k) {
        let k = choose|k: int| point_at(body, k);
        Some(
            (
                signed(neg, digits_value(body.take(k) + body.skip(k + 1))),
                (body.len() - k - 1) as nat,
            ),
        )
    } else {
        None
    }
}

/// A string body that C reads back as it is: no quote, backslash or newline.
pub open spec fn plain_string_body(s: Seq<char>) -> bool {
    forall|i: int| 0 <= i < s.len() ==> #[trigger] s[i] != '"' && s[i] != '\\' && s[i] != '\n'
}

/// Reads a string token without escapes.
pub open spec fn read_string(t: Seq<char>) -> Option<Seq<char>> {
    if t.len() >= 2 && t[0] == '"' && t[t.len() - 1] == '"' && plain_string_body(
        t.subrange(1, t.len() - 1),
    ) {
        Some(t.subrange(1, t.len() - 1))
    } else {
        None
    }
}

/// Reads a boolean token.
pub open spec fn read_bool(t: Seq<char>) -> Option<bool> {
    if t == "true"@ {
        Some(true)
    } else if t == "false"@ {
        Some(false)
    } else {
        None
    }
}

proof fn lemma_nat_digits(n: nat)
    ensures
        all_digits(nat_digits(n)),
        digits_value(nat_digits(n)) == n,
        nat_digits(n)[0] != '-',
    decreases n,
{
    if n >= 10 {
        lemma_nat_digits(n / 10);
        let d = nat_digits(n / 10);
        assert(nat_digits(n).drop_last() =~= d);
        assert(is_digit(digit_char(n % 10)));
        assert((digit_char(n % 10) as u32) - 48 == n % 10);
        assert(nat_digits(n).last() == digit_char(n % 10));
        assert((n / 10) * 10 + n % 10 == n) by (nonlinear_arith);
        assert(digits_value(nat_digits(n)) == digits_value(d) * 10 + n % 10);
    } else {
        assert((digit_char(n) as u32) - 48 == n);
        assert(seq![digit_char(n)].drop_last() =~= Seq::<char>::empty());
        assert(digits_value(Seq::<char>::empty()) == 0);
        assert(digits_value(nat_digits(n)) == 0 * 10 + n);
    }
}

proof fn lemma_zeros_value(z: nat, d: Seq<char>)
    ensures
        digits_value(Seq::new(z, |i: int| '0') + d) == digits_value(d),
    decreases d.len(),
{
    let zs = Seq::new(z, |i: int| '0');
    if d.len() == 0 {
        lemma_zeros_only(z);
        assert(zs + d =~= zs);
    } else {
        lemma_zeros_value(z, d.drop_last());
        assert((zs + d).drop_last() =~= zs + d.drop_last());
    }
}

proof fn lemma_zeros_only(z: nat)
    ensures
        digits_value(Seq::new(z, |i: int| '0')) == 0,
    decreases z,
{
    if z > 0 {
        lemma_zeros_only((z - 1) as nat);
        assert(Seq::new(z, |i: int| '0').drop_last() =~= Seq::new((z - 1) as nat, |i: int| '0'));
    }
}

proof fn lemma_padded(m: int, scale: nat)
    ensures
        all_digits(padded_digits(m, scale)),
        digits_value(padded_digits(m, scale)) == abs(m),
        padded_digits(m, scale).len() > scale,
{
    let d = nat_digits(abs(m));
    lemma_nat_digits(abs(m));
    if d.len() <= scale {
        let z = (scale + 1 - d.len()) as nat;
        lemma_zeros_value(z, d);
        let p = Seq::new(z, |i: int| '0') + d;
        assert forall|i: int| 0 <= i < p.len() implies is_digit(#[trigger] p[i]) by {
            if i >= z {
                assert(p[i] == d[i - z]);
            }
        }
    }
}

proof fn lemma_read_signed(m: int, body: Seq<char>)
    requires
        all_digits(body) || body.len() > 0 && is_digit(body[0]),
    ensures
        split_sign(if m < 0 {
            seq!['-']
        } else {
            Seq::empty()
        } + body) == (m < 0, body),
{
    let t = if m < 0 {
        seq!['-']
    } else {
        Seq::<char>::empty()
    } + body;
    if m < 0 {
        assert(t.skip(1) =~= body);
    } else {
        assert(t =~= body);
    }
}

/// Rendering a literal never fails, and reading the text back with the
/// reference reader of its kind gives the literal's value. A string is read
/// back as it is when its text holds no quote, backslash or newline: such
/// text is emitted without escapes.
pub proof fn lemma_literal_round_trip(l: Literal)
    requires
        l is String ==> plain_string_body(l->String_0@),
    ensures
        match l {
            Literal::Int(i) => read_int(literal_text(l)) == Some(i as int),
            Literal::Float(d) => read_decimal(literal_text(l)) == Some(
                (d.mantissa as int, d.scale as nat),
            ),
            Literal::String(s) => read_string(literal_text(l)) == Some(s@),
            Literal::Bool(b) => read_bool(literal_text(l)) == Some(b),
        },
{
    match l {
        Literal::Int(i) => {
            let n = abs(i as int);
            lemma_nat_digits(n);
            let t = int_digits(i as int);
            if i < 0 {
                assert(t.skip(1) =~= nat_digits(n));
            }
        },
        Literal::Float(d) => {
            let m = d.mantissa as int;
            let s = d.scale as nat;
            let p = padded_digits(m, s);
            lemma_padded(m, s);
            let sign = if m < 0 {
                seq!['-']
            } else {
                Seq::<char>::empty()
            };
            let t = decimal_text(m, s);
            if s == 0 {
                assert(t == sign + p);
                lemma_read_signed(m, p);
            } else {
                let k = p.len() - s;
                let body = p.take(k) + seq!['.'] + p.skip(k);
                assert(t =~= sign + body);
                assert(body[0] == p[0]);
                lemma_read_signed(m, body);
                assert(body.take(k) =~= p.take(k));
                assert(body.skip(k + 1) =~= p.skip(k));
                assert(p.take(k) + p.skip(k) =~= p);
                assert(point_at(body, k));
                assert(!all_digits(body)) by {
                    assert(!is_digit(body[k]));
                }
                let k2 = choose|k2: int| point_at(body, k2);
                assert(k2 == k) by {
                    if k2 < k {
                        assert(body.take(k)[k2] == '.');
                    } else if k2 > k {
                        assert(body.take(k2)[k] == '.');
                    }
                }
            }
        },
        Literal::String(s) => {
            let t = literal_text(l);
            assert(t.subrange(1, t.len() - 1) =~= s@);
        },
        Literal::Bool(b) => {
            reveal_strlit("true");
            reveal_strlit("false");
            assert("true"@ != "false"@) by {
                assert("true"@.len() != "false"@.len());
            }
        },
    }
}

} // verus!
