use vstd::prelude::*;

verus! {

/// The character for one decimal digit.
pub open spec fn digit_char(d: int) -> char {
    if d == 0 {
        '0'
    } else if d == 1 {
        '1'
    } else if d == 2 {
        '2'
    } else if d == 3 {
        '3'
    } else if d == 4 {
        '4'
    } else if d == 5 {
        '5'
    } else if d == 6 {
        '6'
    } else if d == 7 {
        '7'
    } else if d == 8 {
        '8'
    } else {
        '9'
    }
}

/// Decimal digits of a non-negative integer, most significant first,
/// without a sign and without leading zeros (a single `0` for zero).
pub open spec fn dec_digits(n: int) -> Seq<char>
    recommends
        n >= 0,
    decreases n,
{
    if n < 10 {
        seq![digit_char(if n < 0 { 0int } else { n })]
    } else {
        dec_digits(n / 10) + seq![digit_char(n % 10)]
    }
}

/// A run of `n` zero characters.
pub open spec fn zero_run(n: int) -> Seq<char> {
    Seq::new(if n < 0 { 0nat } else { n as nat }, |i: int| '0')
}

/// An integer in decimal, zero-padded on the left to a minimum width;
/// a leading minus sign counts toward the width.
pub open spec fn int_pad(v: int, w: int) -> Seq<char> {
    if v >= 0 {
        zero_run(w - dec_digits(v).len()) + dec_digits(v)
    } else {
        seq!['-'] + zero_run(w - 1 - dec_digits(-v).len()) + dec_digits(-v)
    }
}

/// An integer in decimal with no padding.
pub open spec fn int_dec(v: int) -> Seq<char> {
    int_pad(v, 0)
}

pub proof fn lemma_dec_digits_len(n: int)
    requires
        n >= 0,
    ensures
        dec_digits(n).len() >= 1,
    decreases n,
{
    if n >= 10 {
        lemma_dec_digits_len(n / 10);
    }
}

/// The string for one decimal digit.
pub fn digit_str(d: u64) -> (r: &'static str)
    requires
        d < 10,
    ensures
        r@ == seq![digit_char(d as int)],
{
    let r: &'static str = if d == 0 {
        "0"
    } else if d == 1 {
        "1"
    } else if d == 2 {
        "2"
    } else if d == 3 {
        "3"
    } else if d == 4 {
        "4"
    } else if d == 5 {
        "5"
    } else if d == 6 {
        "6"
    } else if d == 7 {
        "7"
    } else if d == 8 {
        "8"
    } else {
        "9"
    };
    proof {
        reveal_strlit("0");
        reveal_strlit("1");
        reveal_strlit("2");
        reveal_strlit("3");
        reveal_strlit("4");
        reveal_strlit("5");
        reveal_strlit("6");
        reveal_strlit("7");
        reveal_strlit("8");
        reveal_strlit("9");
        assert(r@ =~= seq![digit_char(d as int)]);
    }
    r
}

/// Decimal digits of an unsigned integer.
pub fn u64_to_string(n: u64) -> (r: String)
    ensures
        r@ == dec_digits(n as int),
    decreases n,
{
    if n < 10 {
        digit_str(n).to_owned()
    } else {
        let mut s = u64_to_string(n / 10);
        s.append(digit_str(n % 10));
        proof {
            assert(s@ =~= dec_digits(n as int));
        }
        s
    }
}

/// The non-negative magnitude of a signed integer, as unsigned.
fn abs_u64(v: i64) -> (r: u64)
    ensures
        r as int == if v >= 0 { v as int } else { -(v as int) },
{
    if v == i64::MIN {
        9223372036854775808u64
    } else if v < 0 {
        (-v) as u64
    } else {
        v as u64
    }
}

/// An integer in decimal, zero-padded on the left to width `w`
/// (the sign counts toward the width), as the standard formatter pads it.
pub fn i64_pad(v: i64, w: usize) -> (r: String)
    ensures
        r@ == int_pad(v as int, w as int),
{
    let m = abs_u64(v);
    let digits = u64_to_string(m);
    let dlen = digits.as_str().unicode_len();
    let sign: usize = if v < 0 { 1 } else { 0 };
    let mut s = String::new();
    let mut have: usize = sign;
    if v < 0 {
        s.append("-");
        proof {
            reveal_strlit("-");
            assert(s@ =~= seq!['-']);
        }
    }
    proof {
        lemma_dec_digits_len(m as int);
        assert(s@ =~= if v < 0 { seq!['-'] } else { Seq::<char>::empty() } + zero_run(0));
    }
    while dlen < w && have < w - dlen
        invariant
            dlen == dec_digits(m as int).len(),
            dlen >= 1,
            sign == if v < 0 { 1int } else { 0int },
            have >= sign,
            have == sign || have + dlen <= w,
            s@ == if v < 0 { seq!['-'] } else { Seq::<char>::empty() } + zero_run(have - sign),
        decreases w - have,
    {
        s.append("0");
        proof {
            reveal_strlit("0");
            assert(s@ =~= if v < 0 { seq!['-'] } else { Seq::<char>::empty() } + zero_run(
                have + 1 - sign,
            ));
        }
        have = have + 1;
    }
    s.append(digits.as_str());
    proof {
        assert(have == sign || have + dlen == w);
        if v >= 0 {
            assert(zero_run(w - dec_digits(v as int).len()) =~= zero_run(have - sign));
            assert(s@ =~= int_pad(v as int, w as int));
        } else {
            assert(zero_run(w - 1 - dec_digits(-(v as int)).len()) =~= zero_run(have - sign));
            assert(s@ =~= int_pad(v as int, w as int));
        }
    }
    s
}

/// An integer in decimal with no padding.
pub fn i64_to_string(v: i64) -> (r: String)
    ensures
        r@ == int_dec(v as int),
{
    i64_pad(v, 0)
}

} // verus!
