//! Decimal strings. The model stores money amounts as display-ready decimal
//! strings; the one place the library reads one back is the deposit
//! normalization rule. An amount is parsed into a whole number of cents
//! (absolute value, rounded half-up on the third fraction digit) and written
//! back with exactly two fraction digits. All values are US dollar amounts;
//! two decimal places is the canonical precision of this library.

use vstd::prelude::*;

verus! {

pub open spec fn is_digit(c: char) -> bool {
    '0' <= c <= '9'
}

/// The numeric value of a digit character.
pub open spec fn digit_val(c: char) -> nat {
    (c as nat - '0' as nat) as nat
}

pub open spec fn all_digits(s: Seq<char>) -> bool {
    forall|i: int| 0 <= i < s.len() ==> is_digit(#[trigger] s[i])
}

/// The value of a string of digit characters, most significant first.
pub open spec fn digits_val(s: Seq<char>) -> nat
    decreases s.len(),
{
    if s.len() == 0 {
        0
    } else {
        digits_val(s.drop_last()) * 10 + digit_val(s.last())
    }
}

proof fn lemma_digits_val_monotone(s: Seq<char>, i: int)
    requires
        0 <= i <= s.len(),
    ensures
        digits_val(s) >= digits_val(s.take(i)),
    decreases s.len() - i,
{
    if i == s.len() {
        assert(s.take(i) =~= s);
    } else {
        lemma_digits_val_monotone(s, i + 1);
        assert(s.take(i + 1).drop_last() =~= s.take(i));
        assert(digits_val(s.take(i + 1)) == digits_val(s.take(i)) * 10 + digit_val(s[i]));
    }
}

/// The digits of `v` from `from` to `to`, read as a number, when they are all
/// digits and the value fits in a machine word.
pub fn parse_digits_range(v: &Vec<char>, from: usize, to: usize) -> (r: Option<u64>)
    requires
        from <= to <= v@.len(),
    ensures
        r is Some <==> all_digits(v@.subrange(from as int, to as int)) && digits_val(
            v@.subrange(from as int, to as int),
        ) <= u64::MAX,
        r is Some ==> r->0 == digits_val(v@.subrange(from as int, to as int)),
{
    let ghost s = v@.subrange(from as int, to as int);
    let mut val: u64 = 0;
    let mut i: usize = from;
    while i < to
        invariant
            from <= i <= to <= v@.len(),
            s == v@.subrange(from as int, to as int),
            all_digits(s.take(i - from)),
            val == digits_val(s.take(i - from)),
        decreases to - i,
    {
        let c = v[i];
        if !('0' <= c && c <= '9') {
            proof {
                assert(s[i - from] == c);
                assert(!is_digit(s[i - from]));
            }
            return None;
        }
        let d: u64 = (c as u32 as u64) - 48;
        proof {
            assert(s.take(i + 1 - from).drop_last() =~= s.take(i - from));
            assert(s.take(i + 1 - from).last() == s[i - from] == c);
            assert(d == digit_val(c));
        }
        let m = match val.checked_mul(10) {
            Some(m) => m,
            None => {
                proof {
                    lemma_digits_val_monotone(s, i + 1 - from);
                }
                return None;
            },
        };
        let nv = match m.checked_add(d) {
            Some(nv) => nv,
            None => {
                proof {
                    lemma_digits_val_monotone(s, i + 1 - from);
                }
                return None;
            },
        };
        val = nv;
        i = i + 1;
    }
    proof {
        assert(s.take(to - from) =~= s);
    }
    Some(val)
}

/// Index of the first '.' in `s`, or the length of `s` when it has none.
pub open spec fn first_dot(s: Seq<char>) -> int
    decreases s.len(),
{
    if s.len() == 0 {
        0
    } else if s[0] == '.' {
        0
    } else {
        1 + first_dot(s.drop_first())
    }
}

proof fn lemma_first_dot(s: Seq<char>)
    ensures
        0 <= first_dot(s) <= s.len(),
        forall|j: int| 0 <= j < first_dot(s) ==> s[j] != '.',
        first_dot(s) < s.len() ==> s[first_dot(s)] == '.',
    decreases s.len(),
{
    if s.len() > 0 && s[0] != '.' {
        lemma_first_dot(s.drop_first());
        assert(forall|j: int| 1 <= j < first_dot(s) ==> s[j] == s.drop_first()[j - 1]);
    }
}

/// The body of a decimal string: the characters after an optional leading
/// sign.
pub open spec fn sign_stripped(s: Seq<char>) -> Seq<char> {
    if s.len() > 0 && (s[0] == '+' || s[0] == '-') {
        s.drop_first()
    } else {
        s
    }
}

/// The whole-dollar digits of a decimal string body.
pub open spec fn int_part(b: Seq<char>) -> Seq<char> {
    b.take(first_dot(b))
}

/// The fraction digits of a decimal string body.
pub open spec fn frac_part(b: Seq<char>) -> Seq<char> {
    if first_dot(b) < b.len() {
        b.skip(first_dot(b) + 1)
    } else {
        Seq::empty()
    }
}

/// A decimal number: an optional sign, then digits with at most one point
/// somewhere among them, at least one digit in all.
pub open spec fn is_decimal(s: Seq<char>) -> bool {
    let b = sign_stripped(s);
    all_digits(int_part(b)) && all_digits(frac_part(b)) && int_part(b).len() + frac_part(b).len()
        >= 1
}

/// The fraction digits as cents, rounded half-up on the third digit.
pub open spec fn frac_cents(f: Seq<char>) -> nat {
    let tens: nat = if f.len() >= 1 {
        digit_val(f[0])
    } else {
        0
    };
    let ones: nat = if f.len() >= 2 {
        digit_val(f[1])
    } else {
        0
    };
    let up: nat = if f.len() >= 3 && digit_val(f[2]) >= 5 {
        1
    } else {
        0
    };
    tens * 10 + ones + up
}

/// The absolute value of a decimal string, in cents.
pub open spec fn decimal_cents(s: Seq<char>) -> nat {
    let b = sign_stripped(s);
    digits_val(int_part(b)) * 100 + frac_cents(frac_part(b))
}

/// Reads a decimal string as a whole number of cents: its absolute value,
/// rounded half-up to two fraction digits. Yields nothing exactly when the
/// string is not a decimal number or its value does not fit.
pub fn parse_decimal_cents(v: &Vec<char>) -> (r: Option<u64>)
    ensures
        r is Some <==> is_decimal(v@) && decimal_cents(v@) <= u64::MAX,
        r is Some ==> r->0 == decimal_cents(v@),
{
    let start: usize = if v.len() > 0 && (v[0] == '+' || v[0] == '-') {
        1
    } else {
        0
    };
    let ghost b = sign_stripped(v@);
    proof {
        assert(b =~= v@.subrange(start as int, v@.len() as int));
        lemma_first_dot(b);
    }
    // find the decimal point
    let mut dot: usize = start;
    while dot < v.len() && v[dot] != '.'
        invariant
            start <= dot <= v@.len(),
            forall|j: int| start <= j < dot ==> v@[j] != '.',
        decreases v@.len() - dot,
    {
        dot = dot + 1;
    }
    proof {
        assert(forall|j: int| 0 <= j < dot - start ==> b[j] == v@[j + start] && b[j] != '.');
        if dot < v@.len() {
            assert(b[dot - start] == '.');
        }
        lemma_first_dot_at(b, dot - start);
        assert(int_part(b) =~= v@.subrange(start as int, dot as int));
    }
    let int_val = match parse_digits_range(v, start, dot) {
        Some(x) => x,
        None => {
            proof {
                if all_digits(int_part(b)) {
                    lemma_cents_ge_dollars(b);
                }
            }
            return None;
        },
    };
    let mut f0: u64 = 0;
    let mut f1: u64 = 0;
    let mut up: u64 = 0;
    if dot < v.len() {
        proof {
            assert(frac_part(b) =~= v@.subrange(dot + 1, v@.len() as int));
        }
        // every character after the point must be a digit
        let mut k: usize = dot + 1;
        while k < v.len()
            invariant
                dot < v@.len(),
                dot + 1 <= k <= v@.len(),
                b == sign_stripped(v@),
                frac_part(b) == v@.subrange(dot + 1, v@.len() as int),
                forall|j: int| dot + 1 <= j < k ==> is_digit(#[trigger] v@[j]),
            decreases v@.len() - k,
        {
            let c = v[k];
            if !('0' <= c && c <= '9') {
                proof {
                    assert(frac_part(b)[k - dot - 1] == v@[k as int]);
                    assert(!is_digit(frac_part(b)[k - dot - 1]));
                }
                return None;
            }
            k = k + 1;
        }
        proof {
            assert(forall|j: int|
                0 <= j < frac_part(b).len() ==> frac_part(b)[j] == v@[j + dot + 1]);
        }
        let rem = v.len() - dot;
        if rem > 1 {
            f0 = (v[dot + 1] as u32 as u64) - 48;
            proof {
                assert(is_digit(v@[dot + 1]));
                assert(f0 == digit_val(frac_part(b)[0]));
            }
        }
        if rem > 2 {
            f1 = (v[dot + 2] as u32 as u64) - 48;
            proof {
                assert(is_digit(v@[dot + 2]));
                assert(f1 == digit_val(frac_part(b)[1]));
            }
        }
        if rem > 3 {
            let c2 = v[dot + 3];
            if c2 >= '5' {
                up = 1;
            }
            proof {
                assert(is_digit(v@[dot + 3]));
                assert(c2 == frac_part(b)[2]);
                assert((c2 >= '5') == (digit_val(c2) >= 5));
            }
        }
    } else {
        proof {
            assert(frac_part(b) =~= Seq::<char>::empty());
        }
    }
    if dot == start && (dot >= v.len() || dot + 1 >= v.len()) {
        // no digits at all: an empty body, a bare sign, or a sign and a point
        proof {
            assert(int_part(b).len() == 0);
            assert(frac_part(b).len() == 0);
        }
        return None;
    }
    let frac: u64 = f0 * 10 + f1 + up;
    proof {
        assert(frac == frac_cents(frac_part(b)));
    }
    let scaled = match int_val.checked_mul(100) {
        Some(x) => x,
        None => {
            return None;
        },
    };
    let total = match scaled.checked_add(frac) {
        Some(x) => x,
        None => {
            return None;
        },
    };
    Some(total)
}

proof fn lemma_first_dot_at(s: Seq<char>, j: int)
    requires
        0 <= j <= s.len(),
        forall|k: int| 0 <= k < j ==> s[k] != '.',
        j < s.len() ==> s[j] == '.',
    ensures
        first_dot(s) == j,
{
    lemma_first_dot(s);
    let d = first_dot(s);
    if d < j {
        assert(s[d] == '.');
        assert(false);
    }
    if d > j {
        assert(j < s.len());
        assert(s[j] != '.');
        assert(false);
    }
}

proof fn lemma_cents_ge_dollars(b: Seq<char>)
    ensures
        digits_val(int_part(b)) * 100 + frac_cents(frac_part(b)) >= digits_val(int_part(b)),
{
}

/// The decimal digits of `n`, most significant first, no leading zeros.
pub open spec fn dec_digits(n: nat) -> Seq<char>
    decreases n,
{
    if n < 10 {
        seq![digit_char(n % 10)]
    } else {
        dec_digits(n / 10).push(digit_char(n % 10))
    }
}

/// The character for one digit.
pub open spec fn digit_char(n: nat) -> char {
    if n == 0 {
        '0'
    } else if n == 1 {
        '1'
    } else if n == 2 {
        '2'
    } else if n == 3 {
        '3'
    } else if n == 4 {
        '4'
    } else if n == 5 {
        '5'
    } else if n == 6 {
        '6'
    } else if n == 7 {
        '7'
    } else if n == 8 {
        '8'
    } else {
        '9'
    }
}

pub fn digit_char_of(n: u64) -> (r: char)
    requires
        n < 10,
    ensures
        r == digit_char(n as nat),
{
    if n == 0 {
        '0'
    } else if n == 1 {
        '1'
    } else if n == 2 {
        '2'
    } else if n == 3 {
        '3'
    } else if n == 4 {
        '4'
    } else if n == 5 {
        '5'
    } else if n == 6 {
        '6'
    } else if n == 7 {
        '7'
    } else if n == 8 {
        '8'
    } else {
        '9'
    }
}

/// The decimal digits of `n` as characters.
pub fn u64_digits(n: u64) -> (r: Vec<char>)
    ensures
        r@ == dec_digits(n as nat),
    decreases n,
{
    if n < 10 {
        let mut r: Vec<char> = Vec::new();
        r.push(digit_char_of(n % 10));
        proof {
            assert(r@ =~= dec_digits(n as nat));
        }
        r
    } else {
        let mut r = u64_digits(n / 10);
        r.push(digit_char_of(n % 10));
        r
    }
}

/// An amount of cents written as a decimal string with exactly two fraction
/// digits.
pub open spec fn cents_string(c: nat) -> Seq<char> {
    dec_digits(c / 100) + seq!['.', digit_char((c % 100) / 10), digit_char(c % 10)]
}

/// Writes a whole number of cents as dollars with two fraction digits.
pub fn format_cents(c: u64) -> (r: Vec<char>)
    ensures
        r@ == cents_string(c as nat),
{
    let mut r = u64_digits(c / 100);
    r.push('.');
    r.push(digit_char_of((c % 100) / 10));
    r.push(digit_char_of(c % 10));
    proof {
        assert((c % 100) / 10 == ((c as nat) % 100) / 10);
        assert(c % 10 == (c as nat) % 10);
        assert(r@ =~= cents_string(c as nat));
    }
    r
}

} // verus!
