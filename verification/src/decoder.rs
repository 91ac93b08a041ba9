use vstd::prelude::*;

use crate::calendar::date_seq;
use crate::calendar::ts_seq;
use crate::calendar::format_date;
use crate::calendar::format_ts;
use crate::numfmt::dec_digits;
use crate::numfmt::int_dec;
use crate::numfmt::int_pad;
use crate::numfmt::u64_to_string;
use crate::numfmt::i64_pad;
use crate::numfmt::i64_to_string;
use crate::strutil::push_char;
use crate::strutil::str_eq;
use vstd::utf8::valid_utf8;
use vstd::utf8::decode_utf8;

verus! {

/// What the driver handed over for one cell's raw wire value.
pub enum RawValue {
    /// No raw value could be obtained.
    NoRaw,
    /// The cell is SQL null.
    Null,
    /// The raw wire bytes of a non-null cell.
    Bytes(Vec<u8>),
}

impl View for RawValue {
    type V = Option<Option<Seq<u8>>>;

    open spec fn view(&self) -> Option<Option<Seq<u8>>> {
        match self {
            RawValue::NoRaw => None,
            RawValue::Null => Some(None),
            RawValue::Bytes(b) => Some(Some(b@)),
        }
    }
}

/// Everything the driver can say about one result cell: the column's wire
/// type name and the outcome of each decoding strategy the chain may try.
pub struct RawCell {
    /// The column's declared wire type name.
    pub wire_type: String,
    /// The native text decode, if the driver could read the cell as text.
    pub text: Option<String>,
    /// The raw wire value.
    pub raw: RawValue,
    /// The cell read as a 32-bit integer, if the driver could.
    pub int4: Option<i32>,
    /// The cell read as a 16-bit integer, if the driver could.
    pub int2: Option<i16>,
    /// The cell read as a 64-bit integer, if the driver could.
    pub int8: Option<i64>,
    /// The cell read as a 64-bit float, already rendered to text.
    pub float8: Option<String>,
    /// The cell read as a boolean, if the driver could.
    pub boolean: Option<bool>,
    /// The cell read as a JSON value, rendered to its textual form.
    pub json: Option<String>,
}

pub ghost struct CellView {
    pub wire_type: Seq<char>,
    pub text: Option<Seq<char>>,
    pub raw: Option<Option<Seq<u8>>>,
    pub int4: Option<i32>,
    pub int2: Option<i16>,
    pub int8: Option<i64>,
    pub float8: Option<Seq<char>>,
    pub boolean: Option<bool>,
    pub json: Option<Seq<char>>,
}

impl View for RawCell {
    type V = CellView;

    open spec fn view(&self) -> CellView {
        CellView {
            wire_type: self.wire_type@,
            text: match self.text {
                Some(t) => Some(t@),
                None => None,
            },
            raw: self.raw@,
            int4: self.int4,
            int2: self.int2,
            int8: self.int8,
            float8: match self.float8 {
                Some(t) => Some(t@),
                None => None,
            },
            boolean: self.boolean,
            json: match self.json {
                Some(t) => Some(t@),
                None => None,
            },
        }
    }
}

/// Big-endian unsigned value of a byte sequence.
pub open spec fn be_val(b: Seq<u8>) -> int
    decreases b.len(),
{
    if b.len() == 0 {
        0
    } else {
        be_val(b.drop_last()) * 256 + b.last()
    }
}

/// A big-endian byte sequence read as a signed 64-bit integer.
pub open spec fn i64_of_be8(b: Seq<u8>) -> int {
    if be_val(b) < 0x8000000000000000 {
        be_val(b)
    } else {
        be_val(b) - 0x10000000000000000
    }
}

/// A big-endian byte sequence read as a signed 32-bit integer.
pub open spec fn i32_of_be4(b: Seq<u8>) -> int {
    if be_val(b) < 0x80000000 {
        be_val(b)
    } else {
        be_val(b) - 0x100000000
    }
}

/// Division truncating toward zero, as the machine divides signed values.
pub open spec fn trunc_div(a: int, b: int) -> int {
    if a >= 0 {
        a / b
    } else {
        -((-a) / b)
    }
}

/// Unix seconds of a timestamp counted in microseconds since 2000-01-01.
pub open spec fn pg_secs(micros: int) -> int {
    trunc_div(micros, 1000000) + 946684800
}

/// The character for one hexadecimal digit, lower case.
pub open spec fn hex_char(d: int) -> char {
    if d < 10 {
        crate::numfmt::digit_char(d)
    } else if d == 10 {
        'a'
    } else if d == 11 {
        'b'
    } else if d == 12 {
        'c'
    } else if d == 13 {
        'd'
    } else if d == 14 {
        'e'
    } else {
        'f'
    }
}

/// One byte as two lower-case hexadecimal digits.
pub open spec fn hex_pair(b: int) -> Seq<char> {
    seq![hex_char(b / 16), hex_char(b % 16)]
}

/// Hexadecimal digits of a range of bytes, two per byte.
pub open spec fn hex_seq(b: Seq<u8>, from: int, to: int) -> Seq<char>
    decreases to - from,
{
    if from >= to {
        Seq::empty()
    } else {
        hex_pair(b[from] as int) + hex_seq(b, from + 1, to)
    }
}

/// A 16-byte value in the hyphenated `8-4-4-4-12` hexadecimal form.
pub open spec fn uuid_seq(b: Seq<u8>) -> Seq<char> {
    hex_seq(b, 0, 4) + seq!['-'] + hex_seq(b, 4, 6) + seq!['-'] + hex_seq(b, 6, 8) + seq!['-']
        + hex_seq(b, 8, 10) + seq!['-'] + hex_seq(b, 10, 16)
}

/// A count of minor currency units as `$`, sign, whole units, and two
/// fractional digits.
pub open spec fn money_seq(cents: int) -> Seq<char> {
    let m = if cents < 0 {
        -cents
    } else {
        cents
    };
    seq!['$'] + (if cents < 0 {
        seq!['-']
    } else {
        Seq::<char>::empty()
    }) + dec_digits(m / 100) + seq!['.'] + int_pad(m % 100, 2)
}

/// The display string for a recognized wire type, or None when the type
/// name or payload length does not fit any recognized shape and the chain
/// must fall through to the generic decoders.
pub open spec fn typed_decode(t: Seq<char>, b: Seq<u8>) -> Option<Seq<char>> {
    if t == "TIMESTAMPTZ"@ || t == "TIMESTAMP"@ {
        if b.len() == 8 {
            Some(ts_seq(pg_secs(i64_of_be8(b))))
        } else {
            None
        }
    } else if t == "DATE"@ {
        if b.len() == 4 {
            Some(date_seq(i32_of_be4(b) + 10957))
        } else {
            None
        }
    } else if t == "UUID"@ {
        if b.len() == 16 {
            Some(uuid_seq(b))
        } else {
            None
        }
    } else if t == "BOOL"@ {
        if b.len() > 0 {
            Some(
                if b[0] != 0 {
                    "true"@
                } else {
                    "false"@
                },
            )
        } else {
            None
        }
    } else if t == "MONEY"@ {
        if b.len() == 8 {
            Some(money_seq(i64_of_be8(b)))
        } else {
            None
        }
    } else {
        if valid_utf8(b) {
            Some(decode_utf8(b))
        } else {
            None
        }
    }
}

/// A JSON rendering with one enclosing layer of quotes stripped.
pub open spec fn strip_quotes(s: Seq<char>) -> Seq<char> {
    if s.len() >= 2 && s[0] == '"' && s[s.len() - 1] == '"' {
        s.subrange(1, s.len() - 1)
    } else {
        s
    }
}

/// The generic decoders, tried in order after the type-directed ones:
/// 32-bit, 16-bit and 64-bit integers, floats, booleans, JSON, and at last
/// a labeled fallback naming the wire type.
pub open spec fn generic_decode(c: CellView) -> Seq<char> {
    if c.int4 is Some {
        int_dec(c.int4.unwrap() as int)
    } else if c.int2 is Some {
        int_dec(c.int2.unwrap() as int)
    } else if c.int8 is Some {
        int_dec(c.int8.unwrap() as int)
    } else if c.float8 is Some {
        c.float8.unwrap()
    } else if c.boolean is Some {
        if c.boolean.unwrap() {
            "true"@
        } else {
            "false"@
        }
    } else if c.json is Some {
        strip_quotes(c.json.unwrap())
    } else {
        "[Complex: "@ + c.wire_type + "]"@
    }
}

/// The display string of one cell: native text first; then, for a non-null
/// raw value, the type-directed byte decoders; nulls as the empty string;
/// then the generic decoders.
pub open spec fn decode_spec(c: CellView) -> Seq<char> {
    if c.text is Some {
        c.text.unwrap()
    } else {
        match c.raw {
            Some(None) => Seq::empty(),
            Some(Some(b)) => match typed_decode(c.wire_type, b) {
                Some(s) => s,
                None => generic_decode(c),
            },
            None => generic_decode(c),
        }
    }
}

/// Relies on std::str::from_utf8: returns the decoded characters exactly
/// when the bytes are valid UTF-8.
#[verifier::external_body]
fn utf8_decode_exec(b: &Vec<u8>) -> (r: Option<String>)
    ensures
        r is Some <==> valid_utf8(b@),
        r matches Some(s) ==> s@ == decode_utf8(b@),
{
    match std::str::from_utf8(b.as_slice()) {
        Ok(s) => Some(s.to_owned()),
        Err(_) => None,
    }
}

/// Big-endian unsigned value of up to eight bytes.
fn be_to_u64(b: &Vec<u8>) -> (r: u64)
    requires
        b@.len() <= 8,
    ensures
        r as int == be_val(b@),
{
    proof {
        lemma_be_val_bound(b@);
    }
    let n = b.len();
    let mut acc: u64 = 0;
    let mut i: usize = 0;
    while i < n
        invariant
            n == b@.len(),
            n <= 8,
            0 <= i <= n,
            acc as int == be_val(b@.take(i as int)),
        decreases n - i,
    {
        proof {
            lemma_be_val_bound(b@.take(i + 1));
            assert(b@.take(i + 1).drop_last() =~= b@.take(i as int));
            assert(b@.take(i + 1).last() == b@[i as int]);
        }
        acc = acc * 256 + (b[i] as u64);
        i = i + 1;
    }
    proof {
        assert(b@.take(n as int) =~= b@);
    }
    acc
}

/// A byte sequence of length `n` has a value below 256^n (here: below
/// 2^64 for at most eight bytes).
proof fn lemma_be_val_bound(b: Seq<u8>)
    requires
        b.len() <= 8,
    ensures
        0 <= be_val(b),
        be_val(b) < pow256(b.len() as int),
        pow256(b.len() as int) <= 0x10000000000000000,
    decreases b.len(),
{
    lemma_pow256_small(b.len() as int);
    if b.len() == 0 {
    } else {
        lemma_be_val_bound(b.drop_last());
        assert(pow256(b.len() as int) == 256 * pow256(b.len() - 1));
        assert(be_val(b) == be_val(b.drop_last()) * 256 + b.last());
        assert(be_val(b.drop_last()) * 256 <= (pow256(b.len() - 1) - 1) * 256) by (nonlinear_arith)
            requires
                be_val(b.drop_last()) <= pow256(b.len() - 1) - 1,
        ;
    }
}

/// The first nine powers of 256 stay within 64 bits.
proof fn lemma_pow256_small(n: int)
    requires
        0 <= n <= 8,
    ensures
        pow256(n) <= 0x10000000000000000,
{
    reveal_with_fuel(pow256, 10);
    assert(pow256(0) == 1);
    assert(pow256(1) == 256);
    assert(pow256(2) == 0x10000);
    assert(pow256(3) == 0x1000000);
    assert(pow256(4) == 0x100000000);
    assert(pow256(5) == 0x10000000000);
    assert(pow256(6) == 0x1000000000000);
    assert(pow256(7) == 0x100000000000000);
    assert(pow256(8) == 0x10000000000000000);
}

/// Powers of 256 up to the eighth, by repeated multiplication.
pub open spec fn pow256(n: int) -> int
    decreases n,
{
    if n <= 0 {
        1
    } else {
        256 * pow256(n - 1)
    }
}

/// A big-endian eight-byte payload as a signed 64-bit integer.
fn read_i64_be(b: &Vec<u8>) -> (r: i64)
    requires
        b@.len() == 8,
    ensures
        r as int == i64_of_be8(b@),
{
    let u = be_to_u64(b);
    proof {
        lemma_be_val_bound(b@);
    }
    if u < 0x8000000000000000 {
        u as i64
    } else {
        -((18446744073709551615u64 - u) as i64) - 1
    }
}

/// A big-endian four-byte payload as a signed 32-bit integer.
fn read_i32_be(b: &Vec<u8>) -> (r: i64)
    requires
        b@.len() == 4,
    ensures
        r as int == i32_of_be4(b@),
        -0x80000000 <= r <= 0x7fffffff,
{
    let u = be_to_u64(b);
    proof {
        lemma_be_val_bound(b@);
        assert(pow256(0) == 1);
        assert(pow256(1) == 256);
        assert(pow256(2) == 65536);
        assert(pow256(3) == 16777216);
        assert(pow256(4) == 0x100000000);
    }
    if u < 0x80000000 {
        u as i64
    } else {
        (u as i64) - 0x100000000
    }
}

/// Division of a signed value by a positive divisor, truncating toward
/// zero as the driver's integer division does.
fn trunc_div_i64(a: i64, b: u64) -> (r: i64)
    requires
        2 <= b <= 0x7fffffffffffffff,
    ensures
        r as int == trunc_div(a as int, b as int),
        a >= 0 ==> 0 <= r <= a,
        a < 0 ==> a as int <= r as int <= 0,
{
    if a >= 0 {
        let q = (a as u64) / b;
        proof {
            vstd::arithmetic::div_mod::lemma_div_nonincreasing(a as int, b as int);
            vstd::arithmetic::div_mod::lemma_div_pos_is_pos(a as int, b as int);
        }
        q as i64
    } else {
        let m: u64 = if a == i64::MIN {
            9223372036854775808u64
        } else {
            (-a) as u64
        };
        let q = m / b;
        proof {
            vstd::arithmetic::div_mod::lemma_div_nonincreasing(m as int, b as int);
            vstd::arithmetic::div_mod::lemma_div_pos_is_pos(m as int, b as int);
            vstd::arithmetic::div_mod::lemma_fundamental_div_mod(m as int, b as int);
            assert(m as int == (b as int) * (m as int / b as int) + (m as int % b as int));
            assert(q * 2 <= q * b) by (nonlinear_arith)
                requires
                    q >= 0,
                    b >= 2,
            ;
            assert((b as int) * (q as int) == (q as int) * (b as int));
            assert(q <= 0x4000000000000000);
        }
        -(q as i64)
    }
}

/// The string for one hexadecimal digit.
pub fn hex_digit_str(d: u64) -> (r: &'static str)
    requires
        d < 16,
    ensures
        r@ == seq![hex_char(d as int)],
{
    if d < 10 {
        crate::numfmt::digit_str(d)
    } else {
        let r: &'static str = if d == 10 {
            "a"
        } else if d == 11 {
            "b"
        } else if d == 12 {
            "c"
        } else if d == 13 {
            "d"
        } else if d == 14 {
            "e"
        } else {
            "f"
        };
        proof {
            reveal_strlit("a");
            reveal_strlit("b");
            reveal_strlit("c");
            reveal_strlit("d");
            reveal_strlit("e");
            reveal_strlit("f");
            assert(r@ =~= seq![hex_char(d as int)]);
        }
        r
    }
}

/// Append the bytes of `b` in positions `from..to` as hexadecimal digits.
fn append_hex(s: &mut String, b: &Vec<u8>, from: usize, to: usize)
    requires
        from <= to <= b@.len(),
    ensures
        final(s)@ == old(s)@ + hex_seq(b@, from as int, to as int),
{
    let mut i = from;
    while i < to
        invariant
            from <= i <= to <= b@.len(),
            s@ == old(s)@ + hex_seq(b@, from as int, i as int),
        decreases to - i,
    {
        let by = b[i] as u64;
        s.append(hex_digit_str(by / 16));
        s.append(hex_digit_str(by % 16));
        proof {
            lemma_hex_seq_snoc(b@, from as int, i as int);
            assert(s@ =~= old(s)@ + hex_seq(b@, from as int, i + 1));
        }
        i = i + 1;
    }
}

/// Appending one more byte to a hexadecimal run appends its two digits.
proof fn lemma_hex_seq_snoc(b: Seq<u8>, from: int, i: int)
    requires
        from <= i < b.len(),
    ensures
        hex_seq(b, from, i + 1) == hex_seq(b, from, i) + hex_pair(b[i] as int),
    decreases i - from,
{
    if from == i {
        assert(hex_seq(b, from, from) == Seq::<char>::empty());
        assert(hex_seq(b, from, from + 1) =~= hex_pair(b[from] as int) + Seq::<char>::empty());
        assert(hex_seq(b, from, i) + hex_pair(b[i] as int) =~= hex_seq(b, from, i + 1));
    } else {
        lemma_hex_seq_snoc(b, from + 1, i);
        assert(hex_seq(b, from, i + 1) == hex_pair(b[from] as int) + hex_seq(b, from + 1, i + 1));
        assert(hex_seq(b, from, i + 1) =~= hex_seq(b, from, i) + hex_pair(b[i] as int));
    }
}

/// A 16-byte payload in the hyphenated hexadecimal form.
fn format_uuid(b: &Vec<u8>) -> (r: String)
    requires
        b@.len() == 16,
    ensures
        r@ == uuid_seq(b@),
{
    let mut s = String::new();
    append_hex(&mut s, b, 0, 4);
    push_char(&mut s, '-');
    append_hex(&mut s, b, 4, 6);
    push_char(&mut s, '-');
    append_hex(&mut s, b, 6, 8);
    push_char(&mut s, '-');
    append_hex(&mut s, b, 8, 10);
    push_char(&mut s, '-');
    append_hex(&mut s, b, 10, 16);
    proof {
        assert(s@ =~= uuid_seq(b@));
    }
    s
}

/// A count of minor currency units in the `$` display form.
fn format_money(cents: i64) -> (r: String)
    ensures
        r@ == money_seq(cents as int),
{
    let m: u64 = if cents == i64::MIN {
        9223372036854775808u64
    } else if cents < 0 {
        (-cents) as u64
    } else {
        cents as u64
    };
    let mut s = String::new();
    push_char(&mut s, '$');
    if cents < 0 {
        push_char(&mut s, '-');
    }
    s.append(u64_to_string(m / 100).as_str());
    push_char(&mut s, '.');
    s.append(i64_pad((m % 100) as i64, 2).as_str());
    proof {
        assert(s@ =~= money_seq(cents as int));
    }
    s
}

/// The display string of one result cell, by the ordered chain of
/// decoding strategies.
pub fn decode_cell(c: &RawCell) -> (r: String)
    ensures
        r@ == decode_spec(c@),
{
    if let Some(t) = &c.text {
        return t.clone();
    }
    match &c.raw {
        RawValue::Null => {
            return String::new();
        },
        RawValue::Bytes(b) => {
            if str_eq(c.wire_type.as_str(), "TIMESTAMPTZ") || str_eq(
                c.wire_type.as_str(),
                "TIMESTAMP",
            ) {
                if b.len() == 8 {
                    let micros = read_i64_be(b);
                    let seconds = trunc_div_i64(micros, 1000000) + 946684800;
                    return format_ts(seconds);
                }
            } else if str_eq(c.wire_type.as_str(), "DATE") {
                if b.len() == 4 {
                    let days = read_i32_be(b);
                    return format_date(days + 10957);
                }
            } else if str_eq(c.wire_type.as_str(), "UUID") {
                if b.len() == 16 {
                    return format_uuid(b);
                }
            } else if str_eq(c.wire_type.as_str(), "BOOL") {
                if b.len() > 0 {
                    return if b[0] != 0 {
                        "true".to_owned()
                    } else {
                        "false".to_owned()
                    };
                }
            } else if str_eq(c.wire_type.as_str(), "MONEY") {
                if b.len() == 8 {
                    let cents = read_i64_be(b);
                    return format_money(cents);
                }
            } else {
                if let Some(s) = utf8_decode_exec(b) {
                    return s;
                }
            }
        },
        RawValue::NoRaw => {},
    }
    generic_decode_exec(c)
}

/// The generic decoders, tried in their fixed order.
fn generic_decode_exec(c: &RawCell) -> (r: String)
    requires
        c@.text is None,
    ensures
        r@ == generic_decode(c@),
{
    if let Some(v) = c.int4 {
        return i64_to_string(v as i64);
    }
    if let Some(v) = c.int2 {
        return i64_to_string(v as i64);
    }
    if let Some(v) = c.int8 {
        return i64_to_string(v);
    }
    if let Some(f) = &c.float8 {
        return f.clone();
    }
    if let Some(bv) = c.boolean {
        return if bv {
            "true".to_owned()
        } else {
            "false".to_owned()
        };
    }
    if let Some(j) = &c.json {
        return strip_quotes_exec(j);
    }
    let mut s = "[Complex: ".to_owned();
    s.append(c.wire_type.as_str());
    s.append("]");
    proof {
        reveal_strlit("]");
        assert(s@ =~= generic_decode(c@));
    }
    s
}

/// One enclosing layer of quotes stripped, if the text has one.
fn strip_quotes_exec(s: &String) -> (r: String)
    ensures
        r@ == strip_quotes(s@),
{
    let st = s.as_str();
    let n = st.unicode_len();
    if n >= 2 {
        let first = st.get_char(0);
        let last_c = st.get_char(n - 1);
        if first == '"' && last_c == '"' {
            let inner = st.substring_char(1, n - 1);
            return inner.to_owned();
        }
    }
    s.clone()
}

/// Fallback labeling: a cell the driver could not read as text, whose raw
/// value is present and non-null but not valid UTF-8, whose wire type is
/// none of the recognized ones, and which no generic decoder could read,
/// is shown as a label that begins with `[Complex: ` (and ends with the
/// wire type's name in brackets), never as an empty cell.
pub proof fn lemma_fallback_label(c: CellView)
    requires
        c.text is None,
        c.raw matches Some(Some(b)) && !valid_utf8(b),
        c.wire_type != "TIMESTAMPTZ"@,
        c.wire_type != "TIMESTAMP"@,
        c.wire_type != "DATE"@,
        c.wire_type != "UUID"@,
        c.wire_type != "BOOL"@,
        c.wire_type != "MONEY"@,
        c.int4 is None,
        c.int2 is None,
        c.int8 is None,
        c.float8 is None,
        c.boolean is None,
        c.json is None,
    ensures
        decode_spec(c) == "[Complex: "@ + c.wire_type + "]"@,
        decode_spec(c).take(10) == "[Complex: "@,
{
    reveal_strlit("[Complex: ");
    assert(decode_spec(c) == "[Complex: "@ + c.wire_type + "]"@);
    assert(decode_spec(c).take(10) =~= "[Complex: "@);
}

} // verus!
