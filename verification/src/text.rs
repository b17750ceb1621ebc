//! Decimal rendering of unsigned integers, plain and zero-padded, together
//! with the injectivity facts that the file-naming scheme rests on.

use vstd::prelude::*;
use vstd::string::*;

verus! {

/// The character for one decimal digit.
pub open spec fn digit_char(d: int) -> char {
    if d == 0 {
        '0'
    } else if d == 1 {
        '1'
    } else if d == 2 {
        '2'
    } else if d == 3 {
        '3'
    } else if d == 4 {
        '4'
    } else if d == 5 {
        '5'
    } else if d == 6 {
        '6'
    } else if d == 7 {
        '7'
    } else if d == 8 {
        '8'
    } else {
        '9'
    }
}

/// The decimal text of `n`, without leading zeros (a single `0` for zero).
pub open spec fn dec_spec(n: nat) -> Seq<char>
    decreases n,
{
    if n < 10 {
        seq![digit_char(n as int)]
    } else {
        dec_spec(n / 10).push(digit_char((n % 10) as int))
    }
}

/// Two decimal digits, zero-padded.
pub open spec fn pad2_spec(n: int) -> Seq<char> {
    seq![digit_char(n / 10), digit_char(n % 10)]
}

/// Four decimal digits, zero-padded.
pub open spec fn pad4_spec(n: int) -> Seq<char> {
    pad2_spec(n / 100) + pad2_spec(n % 100)
}

fn digit_str(d: u64) -> (r: &'static str)
    requires
        d < 10,
    ensures
        r@ == seq![digit_char(d as int)],
{
    proof {
        reveal_strlit("0");
        reveal_strlit("1");
        reveal_strlit("2");
        reveal_strlit("3");
        reveal_strlit("4");
        reveal_strlit("5");
        reveal_strlit("6");
        reveal_strlit("7");
        reveal_strlit("8");
        reveal_strlit("9");
    }
    let r: &'static str = if d == 0 {
        "0"
    } else if d == 1 {
        "1"
    } else if d == 2 {
        "2"
    } else if d == 3 {
        "3"
    } else if d == 4 {
        "4"
    } else if d == 5 {
        "5"
    } else if d == 6 {
        "6"
    } else if d == 7 {
        "7"
    } else if d == 8 {
        "8"
    } else {
        "9"
    };
    proof {
        assert(r@ =~= seq![digit_char(d as int)]);
    }
    r
}

/// Renders `n` in decimal, without leading zeros.
pub fn dec_u64(n: u64) -> (r: String)
    ensures
        r@ == dec_spec(n as nat),
    decreases n,
{
    if n < 10 {
        String::from_str(digit_str(n))
    } else {
        let mut s = dec_u64(n / 10);
        s.append(digit_str(n % 10));
        proof {
            assert(s@ =~= dec_spec(n as nat));
        }
        s
    }
}

/// Renders `n < 100` as exactly two digits, zero-padded.
pub fn pad2(n: u64) -> (r: String)
    requires
        n < 100,
    ensures
        r@ == pad2_spec(n as int),
{
    let mut s = String::from_str(digit_str(n / 10));
    s.append(digit_str(n % 10));
    proof {
        assert(s@ =~= pad2_spec(n as int));
    }
    s
}

/// Renders `n < 10000` as exactly four digits, zero-padded.
pub fn pad4(n: u64) -> (r: String)
    requires
        n < 10000,
    ensures
        r@ == pad4_spec(n as int),
{
    let mut s = pad2(n / 100);
    let t = pad2(n % 100);
    s.append(t.as_str());
    s
}

/// Distinct digits render as distinct characters.
pub proof fn lemma_digit_char_injective(a: int, b: int)
    requires
        0 <= a < 10,
        0 <= b < 10,
        digit_char(a) == digit_char(b),
    ensures
        a == b,
{
}

/// Two-digit zero-padded rendering is injective below 100.
pub proof fn lemma_pad2_injective(a: int, b: int)
    requires
        0 <= a < 100,
        0 <= b < 100,
        pad2_spec(a) == pad2_spec(b),
    ensures
        a == b,
{
    assert(pad2_spec(a)[0] == pad2_spec(b)[0]);
    assert(pad2_spec(a)[1] == pad2_spec(b)[1]);
    lemma_digit_char_injective(a / 10, b / 10);
    lemma_digit_char_injective(a % 10, b % 10);
}

/// Four-digit zero-padded rendering is injective below 10000.
pub proof fn lemma_pad4_injective(a: int, b: int)
    requires
        0 <= a < 10000,
        0 <= b < 10000,
        pad4_spec(a) == pad4_spec(b),
    ensures
        a == b,
{
    assert(pad2_spec(a / 100) =~= pad2_spec(b / 100)) by {
        assert(pad4_spec(a)[0] == pad2_spec(a / 100)[0]);
        assert(pad4_spec(a)[1] == pad2_spec(a / 100)[1]);
        assert(pad4_spec(b)[0] == pad2_spec(b / 100)[0]);
        assert(pad4_spec(b)[1] == pad2_spec(b / 100)[1]);
    }
    assert(pad2_spec(a % 100) =~= pad2_spec(b % 100)) by {
        assert(pad4_spec(a)[2] == pad2_spec(a % 100)[0]);
        assert(pad4_spec(a)[3] == pad2_spec(a % 100)[1]);
        assert(pad4_spec(b)[2] == pad2_spec(b % 100)[0]);
        assert(pad4_spec(b)[3] == pad2_spec(b % 100)[1]);
    }
    lemma_pad2_injective(a / 100, b / 100);
    lemma_pad2_injective(a % 100, b % 100);
}

} // verus!
