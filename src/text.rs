//! Building source text character by character.
use vstd::prelude::*;
use vstd::string::*;
use crate::typing::{is_decimal, is_digit};

verus! {

/// Relies on `String::push`: appends one character.
#[verifier::external_body]
pub fn push_char(s: &mut String, c: char)
    ensures
        final(s)@ == old(s)@.push(c),
{
    s.push(c)
}

/// The digit character of `d`.
pub fn digit_char(d: u32) -> (c: char)
    requires
        d < 10,
    ensures
        is_digit(c),
        c as u32 == '0' as u32 + d,
{
    match d {
        0 => '0',
        1 => '1',
        2 => '2',
        3 => '3',
        4 => '4',
        5 => '5',
        6 => '6',
        7 => '7',
        8 => '8',
        _ => '9',
    }
}

/// The decimal digits of `n`, most significant first.
pub open spec fn digits(n: nat) -> Seq<char>
    decreases n,
{
    if n < 10 {
        seq![('0' as u32 + n) as char]
    } else {
        digits(n / 10).push(('0' as u32 + n % 10) as char)
    }
}

/// Decimal text of `n`, with `-` in front when it is negative.
pub open spec fn decimal(n: int) -> Seq<char> {
    if n < 0 {
        seq!['-'] + digits((-n) as nat)
    } else {
        digits(n as nat)
    }
}

/// Decimal text of an integer below a thousand in magnitude.
pub fn small_int_text(n: i32) -> (r: String)
    requires
        -1000 < n < 1000,
    ensures
        r@ == decimal(n as int),
        is_decimal(r@),
{
    let mut s = String::new();
    let a: u32 = if n < 0 {
        push_char(&mut s, '-');
        (-n) as u32
    } else {
        n as u32
    };
    let ghost pre = s@;
    if a >= 100 {
        push_char(&mut s, digit_char(a / 100));
    }
    if a >= 10 {
        push_char(&mut s, digit_char((a / 10) % 10));
    }
    push_char(&mut s, digit_char(a % 10));
    proof {
        let an = a as nat;
        if an >= 100 {
            assert(digits(an / 100 / 10) == seq![('0' as u32 + an / 100 / 10) as char]);
            assert(an / 10 / 10 == an / 100);
            assert(digits(an / 10) == digits(an / 100).push(('0' as u32 + (an / 10) % 10) as char));
        } else if an >= 10 {
            assert(digits(an / 10) == seq![('0' as u32 + an / 10) as char]);
        }
        assert(s@ == pre + digits(an));
        if n < 0 {
            assert(pre == seq!['-']);
        } else {
            assert(pre == Seq::<char>::empty());
        }
        assert(s@ =~= decimal(n as int));
        if n < 0 {
            assert forall|i: int| 1 <= i < s@.len() implies is_digit(#[trigger] s@[i]) by {}
        } else {
            assert forall|i: int| 0 <= i < s@.len() implies is_digit(#[trigger] s@[i]) by {}
        }
    }
    s
}


/// Appends the decimal digits of `n`.
pub fn push_digits(s: &mut String, n: u32)
    ensures
        final(s)@ == old(s)@ + digits(n as nat),
    decreases n,
{
    if n >= 10 {
        push_digits(s, n / 10);
    }
    push_char(s, digit_char(n % 10));
    proof {
        if n >= 10 {
            assert(final(s)@ =~= old(s)@ + digits((n / 10) as nat).push(('0' as u32 + n % 10) as char));
        } else {
            assert(final(s)@ =~= old(s)@ + digits(n as nat));
        }
    }
}

/// Appends the decimal digits of `n`.
pub fn push_digits_u64(s: &mut String, n: u64)
    ensures
        final(s)@ == old(s)@ + digits(n as nat),
    decreases n,
{
    if n >= 10 {
        push_digits_u64(s, n / 10);
    }
    push_char(s, digit_char((n % 10) as u32));
    proof {
        if n >= 10 {
            assert(final(s)@ =~= old(s)@ + digits((n / 10) as nat).push(('0' as u32 + (n % 10) as u32) as char));
        } else {
            assert(final(s)@ =~= old(s)@ + digits(n as nat));
        }
    }
}

/// `prefix` followed by the decimal digits of `n`.
pub fn numbered(prefix: &str, n: u32) -> (r: String)
    ensures
        r@ == prefix@ + digits(n as nat),
{
    let mut s = String::from_str(prefix);
    push_digits(&mut s, n);
    s
}


/// The lowercase letter number `d`.
pub fn letter(d: u32) -> (c: char)
    requires
        d < 26,
    ensures
        c as u32 == 'a' as u32 + d,
{
    match d {
        0 => 'a',
        1 => 'b',
        2 => 'c',
        3 => 'd',
        4 => 'e',
        5 => 'f',
        6 => 'g',
        7 => 'h',
        8 => 'i',
        9 => 'j',
        10 => 'k',
        11 => 'l',
        12 => 'm',
        13 => 'n',
        14 => 'o',
        15 => 'p',
        16 => 'q',
        17 => 'r',
        18 => 's',
        19 => 't',
        20 => 'u',
        21 => 'v',
        22 => 'w',
        23 => 'x',
        24 => 'y',
        _ => 'z',
    }
}

pub open spec fn letter_spec(d: nat) -> char {
    ('a' as u32 + d) as char
}

pub open spec fn pow26(n: nat) -> nat
    decreases n,
{
    if n == 0 {
        1
    } else {
        26 * pow26((n - 1) as nat)
    }
}

/// The `len` lowercase letters spelling `k` in base 26, most significant
/// first.
pub open spec fn letters_of(k: nat, len: nat) -> Seq<char>
    decreases len,
{
    if len == 0 {
        seq![]
    } else {
        letters_of(k / 26, (len - 1) as nat).push(letter_spec(k % 26))
    }
}

/// Different numbers below `26^len` are spelled differently.
pub proof fn lemma_letters_injective(a: nat, b: nat, len: nat)
    requires
        a < pow26(len),
        b < pow26(len),
        letters_of(a, len) == letters_of(b, len),
    ensures
        a == b,
    decreases len,
{
    if len > 0 {
        let la = letters_of(a, len);
        let lb = letters_of(b, len);
        assert(la.last() == letter_spec(a % 26));
        assert(lb.last() == letter_spec(b % 26));
        assert((('a' as u32 + a % 26) as char) as u32 == 'a' as u32 + a % 26);
        assert((('a' as u32 + b % 26) as char) as u32 == 'a' as u32 + b % 26);
        assert(a % 26 == b % 26);
        assert(la.drop_last() == letters_of(a / 26, (len - 1) as nat));
        assert(lb.drop_last() == letters_of(b / 26, (len - 1) as nat));
        let p = pow26((len - 1) as nat);
        assert(a / 26 < p) by (nonlinear_arith)
            requires a < 26 * p;
        assert(b / 26 < p) by (nonlinear_arith)
            requires b < 26 * p;
        lemma_letters_injective(a / 26, b / 26, (len - 1) as nat);
        assert(a == 26 * (a / 26) + a % 26) by (nonlinear_arith);
        assert(b == 26 * (b / 26) + b % 26) by (nonlinear_arith);
    } else {
        assert(pow26(0) == 1);
    }
}

/// Appends the `len` letters spelling `k`.
pub fn push_letters(s: &mut String, k: u32, len: u32)
    ensures
        final(s)@ == old(s)@ + letters_of(k as nat, len as nat),
    decreases len,
{
    if len > 0 {
        push_letters(s, k / 26, len - 1);
        let c = letter(k % 26);
        push_char(s, c);
        proof {
            assert(c == letter_spec((k % 26) as nat));
            assert(final(s)@ =~= old(s)@ + letters_of(k as nat, len as nat));
        }
    } else {
        assert(final(s)@ =~= old(s)@ + letters_of(k as nat, len as nat));
    }
}

} // verus!
