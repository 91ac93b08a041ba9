use vstd::prelude::*;

use crate::decoder::hex_char;
use crate::models::ConnView;
use crate::models::DbConnection;
use crate::models::conns_view;
use crate::strutil::push_char;
use crate::strutil::str_eq;

verus! {

/// The escape for one character inside a JSON string: quote and backslash
/// get two-character escapes, the five named control characters get their
/// short escapes, the remaining control characters get `\u00` and two
/// hexadecimal digits, and every other character stands as itself.
pub open spec fn esc_char(c: char) -> Seq<char> {
    if c == '"' {
        seq!['\\', '"']
    } else if c == '\\' {
        seq!['\\', '\\']
    } else if c == '\u{8}' {
        seq!['\\', 'b']
    } else if c == '\u{9}' {
        seq!['\\', 't']
    } else if c == '\u{a}' {
        seq!['\\', 'n']
    } else if c == '\u{c}' {
        seq!['\\', 'f']
    } else if c == '\u{d}' {
        seq!['\\', 'r']
    } else if (c as u32) < 0x20 {
        seq!['\\', 'u', '0', '0', hex_char((c as u32) as int / 16), hex_char((c as u32) as int % 16)]
    } else {
        seq![c]
    }
}

/// A character sequence escaped for the inside of a JSON string.
pub open spec fn esc_seq(s: Seq<char>) -> Seq<char>
    decreases s.len(),
{
    if s.len() == 0 {
        Seq::empty()
    } else {
        esc_char(s[0]) + esc_seq(s.drop_first())
    }
}

/// One connection as a JSON object, fields in their declared order.
pub open spec fn obj_of(c: ConnView) -> Seq<char> {
    "{\"host\":\""@ + esc_seq(c.host) + "\",\"db_name\":\""@ + esc_seq(c.db_name)
        + "\",\"user\":\""@ + esc_seq(c.user) + "\",\"password\":\""@ + esc_seq(c.password)
        + "\",\"nickname\":\""@ + esc_seq(c.nickname) + "\"}"@
}

/// The inside of the JSON array: objects joined by commas.
pub open spec fn list_body(l: Seq<ConnView>) -> Seq<char>
    decreases l.len(),
{
    if l.len() == 0 {
        Seq::empty()
    } else if l.len() == 1 {
        obj_of(l[0])
    } else {
        obj_of(l[0]) + seq![','] + list_body(l.drop_first())
    }
}

/// A connection list in its canonical JSON byte-for-byte form.
pub open spec fn json_of(l: Seq<ConnView>) -> Seq<char> {
    seq!['['] + list_body(l) + seq![']']
}

/// Append the escaped form of `t` to `s`.
fn escape_into(s: &mut String, t: &str)
    ensures
        final(s)@ == old(s)@ + esc_seq(t@),
{
    let n = t.unicode_len();
    let mut i: usize = 0;
    while i < n
        invariant
            n == t@.len(),
            0 <= i <= n,
            s@ == old(s)@ + esc_seq(t@.take(i as int)),
        decreases n - i,
    {
        let c = t.get_char(i);
        if c == '"' {
            s.append("\\\"");
            proof {
                reveal_strlit("\\\"");
            }
        } else if c == '\\' {
            s.append("\\\\");
            proof {
                reveal_strlit("\\\\");
            }
        } else if c == '\u{8}' {
            s.append("\\b");
            proof {
                reveal_strlit("\\b");
            }
        } else if c == '\u{9}' {
            s.append("\\t");
            proof {
                reveal_strlit("\\t");
            }
        } else if c == '\u{a}' {
            s.append("\\n");
            proof {
                reveal_strlit("\\n");
            }
        } else if c == '\u{c}' {
            s.append("\\f");
            proof {
                reveal_strlit("\\f");
            }
        } else if c == '\u{d}' {
            s.append("\\r");
            proof {
                reveal_strlit("\\r");
            }
        } else if (c as u32) < 0x20 {
            let v = c as u32;
            s.append("\\u00");
            s.append(crate::decoder::hex_digit_str((v / 16) as u64));
            s.append(crate::decoder::hex_digit_str((v % 16) as u64));
            proof {
                reveal_strlit("\\u00");
            }
        } else {
            push_char(s, c);
        }
        proof {
            lemma_esc_seq_snoc(t@, i as int);
            assert(s@ =~= old(s)@ + esc_seq(t@.take(i + 1)));
        }
        i = i + 1;
    }
    proof {
        assert(t@.take(n as int) =~= t@);
    }
}

/// Escaping one more character appends that character's escape.
proof fn lemma_esc_seq_snoc(t: Seq<char>, i: int)
    requires
        0 <= i < t.len(),
    ensures
        esc_seq(t.take(i + 1)) == esc_seq(t.take(i)) + esc_char(t[i]),
    decreases i,
{
    if i == 0 {
        assert(t.take(1).len() == 1);
        assert(t.take(1)[0] == t[0]);
        assert(t.take(1).drop_first() =~= Seq::<char>::empty());
        assert(t.take(0) =~= Seq::<char>::empty());
        assert(esc_seq(Seq::<char>::empty()) == Seq::<char>::empty());
        assert(esc_seq(t.take(1)) == esc_char(t.take(1)[0]) + esc_seq(t.take(1).drop_first()));
        assert(esc_seq(t.take(1)) =~= esc_seq(t.take(0)) + esc_char(t[0]));
    } else {
        let u = t.drop_first();
        lemma_esc_seq_snoc(u, i - 1);
        assert(t.take(i + 1).drop_first() =~= u.take(i));
        assert(t.take(i).drop_first() =~= u.take(i - 1));
        assert(t.take(i + 1)[0] == t[0]);
        assert(t.take(i)[0] == t[0]);
        assert(esc_seq(t.take(i + 1)) == esc_char(t[0]) + esc_seq(u.take(i)));
        assert(esc_seq(t.take(i)) == esc_char(t[0]) + esc_seq(u.take(i - 1)));
        assert(u[i - 1] == t[i]);
        assert(esc_seq(t.take(i + 1)) =~= esc_seq(t.take(i)) + esc_char(t[i]));
    }
}

/// Append one connection as a JSON object.
fn append_obj(s: &mut String, c: &DbConnection)
    ensures
        final(s)@ == old(s)@ + obj_of(c@),
{
    s.append("{\"host\":\"");
    escape_into(s, c.host.as_str());
    s.append("\",\"db_name\":\"");
    escape_into(s, c.db_name.as_str());
    s.append("\",\"user\":\"");
    escape_into(s, c.user.as_str());
    s.append("\",\"password\":\"");
    escape_into(s, c.password.as_str());
    s.append("\",\"nickname\":\"");
    escape_into(s, c.nickname.as_str());
    s.append("\"}");
    proof {
        assert(s@ =~= old(s)@ + obj_of(c@));
    }
}

/// The canonical JSON form of the connection list.
pub fn encode_connections(conns: &Vec<DbConnection>) -> (r: String)
    ensures
        r@ == json_of(conns_view(conns@)),
{
    let ghost l = conns_view(conns@);
    let n = conns.len();
    let mut s = String::new();
    push_char(&mut s, '[');
    let mut i: usize = 0;
    while i < n
        invariant
            n == conns@.len(),
            l == conns_view(conns@),
            0 <= i <= n,
            s@ == seq!['['] + list_body_prefix(l, i as int),
        decreases n - i,
    {
        if i > 0 {
            push_char(&mut s, ',');
        }
        append_obj(&mut s, &conns[i]);
        proof {
            assert(conns@[i as int]@ == l[i as int]);
            lemma_list_body_prefix_snoc(l, i as int);
            assert(s@ =~= seq!['['] + list_body_prefix(l, i + 1));
        }
        i = i + 1;
    }
    push_char(&mut s, ']');
    proof {
        lemma_list_body_prefix_all(l);
        assert(s@ =~= json_of(l));
    }
    s
}

/// The body of the array restricted to the first `i` objects.
pub open spec fn list_body_prefix(l: Seq<ConnView>, i: int) -> Seq<char> {
    list_body(l.take(i))
}

/// Adding the next object extends the body by a comma (after the first)
/// and that object.
proof fn lemma_list_body_prefix_snoc(l: Seq<ConnView>, i: int)
    requires
        0 <= i < l.len(),
    ensures
        list_body_prefix(l, i + 1) == if i == 0 {
            obj_of(l[0])
        } else {
            list_body_prefix(l, i) + seq![','] + obj_of(l[i])
        },
    decreases i,
{
    if i == 0 {
        assert(l.take(1).len() == 1);
        assert(l.take(1)[0] == l[0]);
        assert(list_body(l.take(1)) == obj_of(l.take(1)[0]));
    } else {
        let u = l.drop_first();
        lemma_list_body_prefix_snoc(u, i - 1);
        assert(l.take(i + 1).drop_first() =~= u.take(i));
        assert(l.take(i).drop_first() =~= u.take(i - 1));
        assert(l.take(i + 1)[0] == l[0]);
        assert(l.take(i)[0] == l[0]);
        assert(l.take(i + 1).len() == i + 1);
        assert(l.take(i).len() == i);
        assert(list_body(l.take(i + 1)) == obj_of(l[0]) + seq![','] + list_body(u.take(i)));
        if i == 1 {
            assert(list_body(l.take(1)) == obj_of(l[0]));
            assert(u.take(0).len() == 0);
            assert(list_body(u.take(1)) == obj_of(u[0]));
            assert(u[0] == l[1]);
            assert(list_body_prefix(l, 2) =~= list_body_prefix(l, 1) + seq![','] + obj_of(l[1]));
        } else {
            assert(list_body(l.take(i)) == obj_of(l[0]) + seq![','] + list_body(u.take(i - 1)));
            assert(u[i - 1] == l[i]);
            assert(list_body_prefix(l, i + 1) =~= list_body_prefix(l, i) + seq![','] + obj_of(
                l[i],
            ));
        }
    }
}

proof fn lemma_list_body_prefix_all(l: Seq<ConnView>)
    ensures
        list_body_prefix(l, l.len() as int) == list_body(l),
{
    assert(l.take(l.len() as int) =~= l);
}


/// Numeric value of a lower-case hexadecimal digit, or -1 for any other
/// character.
pub open spec fn hex_val(c: char) -> int {
    if c == '0' {
        0
    } else if c == '1' {
        1
    } else if c == '2' {
        2
    } else if c == '3' {
        3
    } else if c == '4' {
        4
    } else if c == '5' {
        5
    } else if c == '6' {
        6
    } else if c == '7' {
        7
    } else if c == '8' {
        8
    } else if c == '9' {
        9
    } else if c == 'a' {
        10
    } else if c == 'b' {
        11
    } else if c == 'c' {
        12
    } else if c == 'd' {
        13
    } else if c == 'e' {
        14
    } else if c == 'f' {
        15
    } else {
        -1
    }
}

/// The character a short escape letter stands for.
pub open spec fn unesc_short(e: char) -> char {
    if e == '"' {
        '"'
    } else if e == '\\' {
        '\\'
    } else if e == 'b' {
        '\u{8}'
    } else if e == 't' {
        '\u{9}'
    } else if e == 'n' {
        '\u{a}'
    } else if e == 'f' {
        '\u{c}'
    } else {
        '\u{d}'
    }
}

/// Parse of a JSON string body from position `i`: the unescaped content up
/// to, but not including, the closing quote, whose position is returned.
/// Only the escapes the encoder emits are accepted.
pub open spec fn sp_string(s: Seq<char>, i: int) -> Option<(Seq<char>, int)>
    decreases s.len() - i,
{
    if i < 0 || i >= s.len() {
        None
    } else if s[i] == '"' {
        Some((Seq::empty(), i))
    } else if s[i] == '\\' {
        if i + 1 >= s.len() {
            None
        } else {
            let e = s[i + 1];
            if e == '"' || e == '\\' || e == 'b' || e == 't' || e == 'n' || e == 'f' || e == 'r' {
                match sp_string(s, i + 2) {
                    Some((t, j)) => Some((seq![unesc_short(e)] + t, j)),
                    None => None,
                }
            } else if e == 'u' {
                if i + 5 >= s.len() {
                    None
                } else if s[i + 2] == '0' && s[i + 3] == '0' && hex_val(s[i + 4]) >= 0 && hex_val(
                    s[i + 5],
                ) >= 0 {
                    let v = 16 * hex_val(s[i + 4]) + hex_val(s[i + 5]);
                    if v < 0x20 && v != 8 && v != 9 && v != 0xa && v != 0xc && v != 0xd {
                        match sp_string(s, i + 6) {
                            Some((t, j)) => Some((seq![(v as u32) as char] + t, j)),
                            None => None,
                        }
                    } else {
                        None
                    }
                } else {
                    None
                }
            } else {
                None
            }
        }
    } else if (s[i] as u32) < 0x20 {
        None
    } else {
        match sp_string(s, i + 1) {
            Some((t, j)) => Some((seq![s[i]] + t, j)),
            None => None,
        }
    }
}

/// The literal `lit` stands in `s` at position `i`.
pub open spec fn at_lit(s: Seq<char>, i: int, lit: Seq<char>) -> bool {
    0 <= i && i + lit.len() <= s.len() && s.subrange(i, i + lit.len()) == lit
}

/// Parse of one connection object from position `i`; returns the
/// connection and the position after its closing brace.
pub open spec fn sp_conn(s: Seq<char>, i: int) -> Option<(ConnView, int)> {
    if !at_lit(s, i, "{\"host\":\""@) {
        None
    } else {
        match sp_string(s, i + "{\"host\":\""@.len()) {
            None => None,
            Some((host, j0)) => {
                if !at_lit(s, j0, "\",\"db_name\":\""@) {
                    None
                } else {
                    match sp_string(s, j0 + "\",\"db_name\":\""@.len()) {
                        None => None,
                        Some((db_name, j1)) => {
                            if !at_lit(s, j1, "\",\"user\":\""@) {
                                None
                            } else {
                                match sp_string(s, j1 + "\",\"user\":\""@.len()) {
                                    None => None,
                                    Some((user, j2)) => {
                                        if !at_lit(s, j2, "\",\"password\":\""@) {
                                            None
                                        } else {
                                            match sp_string(
                                                s,
                                                j2 + "\",\"password\":\""@.len(),
                                            ) {
                                                None => None,
                                                Some((password, j3)) => {
                                                    if !at_lit(s, j3, "\",\"nickname\":\""@) {
                                                        None
                                                    } else {
                                                        match sp_string(
                                                            s,
                                                            j3 + "\",\"nickname\":\""@.len(),
                                                        ) {
                                                            None => None,
                                                            Some((nickname, j4)) => {
                                                                if !at_lit(s, j4, "\"}"@) {
                                                                    None
                                                                } else {
                                                                    Some(
                                                                        (
                                                                            ConnView {
                                                                                host,
                                                                                db_name,
                                                                                user,
                                                                                password,
                                                                                nickname,
                                                                            },
                                                                            j4 + 2,
                                                                        ),
                                                                    )
                                                                }
                                                            },
                                                        }
                                                    }
                                                },
                                            }
                                        }
                                    },
                                }
                            }
                        },
                    }
                }
            },
        }
    }
}

/// Parse of one or more connection objects up to and including the
/// closing bracket of the array.
pub open spec fn sp_items(s: Seq<char>, i: int) -> Option<(Seq<ConnView>, int)>
    decreases s.len() - i,
{
    match sp_conn(s, i) {
        None => None,
        Some((c, j)) => {
            if j < s.len() && s[j] == ']' {
                Some((seq![c], j + 1))
            } else if i <= j && j < s.len() && s[j] == ',' {
                match sp_items(s, j + 1) {
                    Some((l, k)) => Some((seq![c] + l, k)),
                    None => None,
                }
            } else {
                None
            }
        },
    }
}

/// Parse of a whole connection list in its canonical form.
pub open spec fn sp_top(s: Seq<char>) -> Option<(Seq<ConnView>, int)> {
    if s.len() == 2 && s[0] == '[' && s[1] == ']' {
        Some((Seq::empty(), 2))
    } else if s.len() >= 1 && s[0] == '[' {
        match sp_items(s, 1) {
            Some((l, k)) => {
                if k == s.len() {
                    Some((l, k))
                } else {
                    None
                }
            },
            None => None,
        }
    } else {
        None
    }
}

/// Numeric value of a lower-case hexadecimal digit, or -1.
fn hex_val_exec(c: char) -> (r: i32)
    ensures
        r as int == hex_val(c),
{
    if c == '0' {
        0
    } else if c == '1' {
        1
    } else if c == '2' {
        2
    } else if c == '3' {
        3
    } else if c == '4' {
        4
    } else if c == '5' {
        5
    } else if c == '6' {
        6
    } else if c == '7' {
        7
    } else if c == '8' {
        8
    } else if c == '9' {
        9
    } else if c == 'a' {
        10
    } else if c == 'b' {
        11
    } else if c == 'c' {
        12
    } else if c == 'd' {
        13
    } else if c == 'e' {
        14
    } else if c == 'f' {
        15
    } else {
        -1
    }
}

/// The character a short escape letter stands for.
fn unesc_short_exec(e: char) -> (r: char)
    ensures
        r == unesc_short(e),
{
    if e == '"' {
        '"'
    } else if e == '\\' {
        '\\'
    } else if e == 'b' {
        '\u{8}'
    } else if e == 't' {
        '\u{9}'
    } else if e == 'n' {
        '\u{a}'
    } else if e == 'f' {
        '\u{c}'
    } else {
        '\u{d}'
    }
}

/// Does the literal stand in `s` at position `i`?
fn at_lit_exec(s: &str, i: usize, lit: &str) -> (r: bool)
    ensures
        r == at_lit(s@, i as int, lit@),
{
    let n = s.unicode_len();
    let m = lit.unicode_len();
    if i > n || m > n - i {
        return false;
    }
    let sub = s.substring_char(i, i + m);
    str_eq(sub, lit)
}

/// Parse of a JSON string body, mirroring `sp_string`.
fn ep_string(s: &str, i: usize) -> (r: Option<(String, usize)>)
    requires
        i <= s@.len(),
    ensures
        match r {
            Some((t, j)) => sp_string(s@, i as int) == Some((t@, j as int)) && i <= j
                && j < s@.len(),
            None => sp_string(s@, i as int) is None,
        },
    decreases s@.len() - i,
{
    let n = s.unicode_len();
    if i >= n {
        return None;
    }
    let c = s.get_char(i);
    if c == '"' {
        return Some((String::new(), i));
    }
    if c == '\\' {
        if i + 1 >= n {
            return None;
        }
        let e = s.get_char(i + 1);
        if e == '"' || e == '\\' || e == 'b' || e == 't' || e == 'n' || e == 'f' || e == 'r' {
            let u = unesc_short_exec(e);
            match ep_string(s, i + 2) {
                Some((t, j)) => {
                    let mut out = String::new();
                    push_char(&mut out, u);
                    out.append(t.as_str());
                    proof {
                        assert(out@ =~= seq![unesc_short(e)] + t@);
                    }
                    Some((out, j))
                },
                None => None,
            }
        } else if e == 'u' {
            if n - i <= 5 {
                return None;
            }
            let c2 = s.get_char(i + 2);
            let c3 = s.get_char(i + 3);
            let h1 = hex_val_exec(s.get_char(i + 4));
            let h2 = hex_val_exec(s.get_char(i + 5));
            if c2 == '0' && c3 == '0' && h1 >= 0 && h2 >= 0 {
                let v: i32 = 16 * h1 + h2;
                if v < 0x20 && v != 8 && v != 9 && v != 0xa && v != 0xc && v != 0xd {
                    let ch = (v as u8) as char;
                    match ep_string(s, i + 6) {
                        Some((t, j)) => {
                            let mut out = String::new();
                            push_char(&mut out, ch);
                            out.append(t.as_str());
                            proof {
                                assert(ch == ((16 * hex_val(s@[i + 4]) + hex_val(s@[i + 5]))
                                    as u32) as char);
                                assert(out@ =~= seq![ch] + t@);
                            }
                            Some((out, j))
                        },
                        None => None,
                    }
                } else {
                    None
                }
            } else {
                None
            }
        } else {
            None
        }
    } else if (c as u32) < 0x20 {
        None
    } else {
        match ep_string(s, i + 1) {
            Some((t, j)) => {
                let mut out = String::new();
                push_char(&mut out, c);
                out.append(t.as_str());
                proof {
                    assert(out@ =~= seq![s@[i as int]] + t@);
                }
                Some((out, j))
            },
            None => None,
        }
    }
}

/// Parse of one connection object, mirroring `sp_conn`.
fn ep_conn(s: &str, i: usize) -> (r: Option<(DbConnection, usize)>)
    requires
        i <= s@.len(),
    ensures
        match r {
            Some((c, j)) => sp_conn(s@, i as int) == Some((c@, j as int)) && i <= j
                && j <= s@.len(),
            None => sp_conn(s@, i as int) is None,
        },
{
    let n = s.unicode_len();
    let l0 = "{\"host\":\"";
    if !at_lit_exec(s, i, l0) {
        return None;
    }
    let i0 = i + l0.unicode_len();
    let r0 = ep_string(s, i0);
    if r0.is_none() {
        return None;
    }
    let (host, j0) = r0.unwrap();
    let l1 = "\",\"db_name\":\"";
    if !at_lit_exec(s, j0, l1) {
        return None;
    }
    let i1 = j0 + l1.unicode_len();
    let r1 = ep_string(s, i1);
    if r1.is_none() {
        return None;
    }
    let (db_name, j1) = r1.unwrap();
    let l2 = "\",\"user\":\"";
    if !at_lit_exec(s, j1, l2) {
        return None;
    }
    let i2 = j1 + l2.unicode_len();
    let r2 = ep_string(s, i2);
    if r2.is_none() {
        return None;
    }
    let (user, j2) = r2.unwrap();
    let l3 = "\",\"password\":\"";
    if !at_lit_exec(s, j2, l3) {
        return None;
    }
    let i3 = j2 + l3.unicode_len();
    let r3 = ep_string(s, i3);
    if r3.is_none() {
        return None;
    }
    let (password, j3) = r3.unwrap();
    let l4 = "\",\"nickname\":\"";
    if !at_lit_exec(s, j3, l4) {
        return None;
    }
    let i4 = j3 + l4.unicode_len();
    let r4 = ep_string(s, i4);
    if r4.is_none() {
        return None;
    }
    let (nickname, j4) = r4.unwrap();
    let l5 = "\"}";
    if !at_lit_exec(s, j4, l5) {
        return None;
    }
    proof {
        reveal_strlit("\"}");
    }
    let conn = DbConnection { host, db_name, user, password, nickname };
    Some((conn, j4 + 2))
}

/// Parse of the objects of the array, mirroring `sp_items`.
fn ep_items(s: &str, i: usize) -> (r: Option<(Vec<DbConnection>, usize)>)
    requires
        i <= s@.len(),
    ensures
        match r {
            Some((l, j)) => sp_items(s@, i as int) == Some((conns_view(l@), j as int)) && j
                <= s@.len(),
            None => sp_items(s@, i as int) is None,
        },
    decreases s@.len() - i,
{
    let rc = ep_conn(s, i);
    if rc.is_none() {
        return None;
    }
    let (c, j) = rc.unwrap();
    let n = s.unicode_len();
    if j < n && s.get_char(j) == ']' {
        let mut v: Vec<DbConnection> = Vec::new();
        v.push(c);
        proof {
            assert(conns_view(v@) =~= seq![v@[0]@]);
        }
        Some((v, j + 1))
    } else if i <= j && j < n && s.get_char(j) == ',' {
        match ep_items(s, j + 1) {
            Some((mut l, k)) => {
                l.insert(0, c);
                proof {
                    assert(conns_view(l@) =~= seq![l@[0]@] + conns_view(l@.drop_first()));
                }
                Some((l, k))
            },
            None => None,
        }
    } else {
        None
    }
}

/// Parse a whole connection list in its canonical JSON form, mirroring
/// `sp_top`; any other text yields nothing.
pub fn parse_connections(s: &str) -> (r: Option<Vec<DbConnection>>)
    ensures
        match r {
            Some(l) => sp_top(s@) matches Some(p) && p.0 == conns_view(l@),
            None => sp_top(s@) is None,
        },
{
    let n = s.unicode_len();
    if n == 2 && s.get_char(0) == '[' && s.get_char(1) == ']' {
        return Some(Vec::new());
    }
    if n >= 1 && s.get_char(0) == '[' {
        match ep_items(s, 1) {
            Some((l, k)) => {
                if k == n {
                    proof {
                        assert(!(s@.len() == 2 && s@[0] == '[' && s@[1] == ']'));
                    }
                    Some(l)
                } else {
                    None
                }
            },
            None => None,
        }
    } else {
        None
    }
}

/// A hexadecimal digit character reads back as its value.
proof fn lemma_hex_roundtrip(d: int)
    requires
        0 <= d < 16,
    ensures
        hex_val(hex_char(d)) == d,
{
}

/// Unfolding of the escape of the first character.
proof fn lemma_esc_seq_cons(t: Seq<char>)
    requires
        t.len() > 0,
    ensures
        esc_seq(t) == esc_char(t[0]) + esc_seq(t.drop_first()),
{
}

/// The parser reads back exactly the string the escaper wrote: wherever
/// `s` holds the escape of `t` followed by a closing quote, the string
/// parser yields `t` and stops on that quote.
proof fn lemma_sp_string_complete(s: Seq<char>, i: int, t: Seq<char>)
    requires
        0 <= i,
        i + esc_seq(t).len() < s.len(),
        s.subrange(i, i + esc_seq(t).len()) == esc_seq(t),
        s[i + esc_seq(t).len()] == '"',
    ensures
        sp_string(s, i) == Some((t, i + esc_seq(t).len())),
    decreases t.len(),
{
    broadcast use vstd::utf8::char_u32_cast;

    if t.len() == 0 {
        assert(esc_seq(t).len() == 0);
        assert(s[i] == '"');
        assert(t =~= Seq::<char>::empty());
    } else {
        let c = t[0];
        let t2 = t.drop_first();
        lemma_esc_seq_cons(t);
        let ec = esc_char(c);
        let el = ec.len();
        let total = esc_seq(t).len();
        let len2 = esc_seq(t2).len();
        assert(total == el + len2);
        let i2 = i + el;
        assert forall|k: int| 0 <= k < total implies s[i + k] == esc_seq(t)[k] by {
            assert(s.subrange(i, i + total)[k] == s[i + k]);
        }
        assert forall|k: int| 0 <= k < el implies s[i + k] == ec[k] by {
            assert(esc_seq(t)[k] == ec[k]);
        }
        assert(s.subrange(i2, i2 + len2) =~= esc_seq(t2)) by {
            assert forall|k: int| 0 <= k < len2 implies s.subrange(i2, i2 + len2)[k] == esc_seq(
                t2,
            )[k] by {
                assert(s.subrange(i2, i2 + len2)[k] == s[i2 + k]);
                assert(s[i2 + k] == esc_seq(t)[el + k]);
                assert(esc_seq(t)[el + k] == esc_seq(t2)[k]);
            }
        }
        assert(s[i2 + len2] == '"');
        assert(i2 + len2 < s.len());
        lemma_sp_string_complete(s, i2, t2);
        assert(seq![c] + t2 =~= t);
        if c == '"' || c == '\\' || c == '\u{8}' || c == '\u{9}' || c == '\u{a}' || c == '\u{c}'
            || c == '\u{d}' {
            assert(el == 2);
            assert(s[i] == '\\');
            let e = ec[1];
            assert(s[i + 1] == e);
            assert(e == '"' || e == '\\' || e == 'b' || e == 't' || e == 'n' || e == 'f' || e
                == 'r');
            assert(unesc_short(e) == c);
            assert(i + 1 < s.len());
            assert(sp_string(s, i) == Some((seq![c] + t2, i2 + len2)));
        } else if (c as u32) < 0x20 {
            let v = (c as u32) as int;
            assert(el == 6);
            assert(s[i] == '\\');
            assert(s[i + 1] == 'u');
            assert(s[i + 2] == '0');
            assert(s[i + 3] == '0');
            assert(s[i + 4] == hex_char(v / 16));
            assert(s[i + 5] == hex_char(v % 16));
            lemma_hex_roundtrip(v / 16);
            lemma_hex_roundtrip(v % 16);
            assert(hex_val(s[i + 4]) == v / 16);
            assert(hex_val(s[i + 5]) == v % 16);
            let v2 = 16 * hex_val(s[i + 4]) + hex_val(s[i + 5]);
            assert(v2 == v);
            assert(('\u{8}' as u32) == 8);
            assert(('\u{9}' as u32) == 9);
            assert(('\u{a}' as u32) == 10);
            assert(('\u{c}' as u32) == 12);
            assert(('\u{d}' as u32) == 13);
            assert(v != 8 && v != 9 && v != 0xa && v != 0xc && v != 0xd) by {
                if v == 8 {
                    vstd::utf8::char_u32_cast(c, 8u32);
                    vstd::utf8::char_u32_cast('\u{8}', 8u32);
                }
                if v == 9 {
                    vstd::utf8::char_u32_cast(c, 9u32);
                    vstd::utf8::char_u32_cast('\u{9}', 9u32);
                }
                if v == 10 {
                    vstd::utf8::char_u32_cast(c, 10u32);
                    vstd::utf8::char_u32_cast('\u{a}', 10u32);
                }
                if v == 12 {
                    vstd::utf8::char_u32_cast(c, 12u32);
                    vstd::utf8::char_u32_cast('\u{c}', 12u32);
                }
                if v == 13 {
                    vstd::utf8::char_u32_cast(c, 13u32);
                    vstd::utf8::char_u32_cast('\u{d}', 13u32);
                }
            }
            assert(i + 5 < s.len());
            vstd::utf8::char_u32_cast(c, v2 as u32);
            assert((v2 as u32) as char == c);
            assert(sp_string(s, i) == Some((seq![c] + t2, i2 + len2)));
        } else {
            assert(ec =~= seq![c]);
            assert(el == 1);
            assert(s[i] == c);
            assert(sp_string(s, i) == Some((seq![c] + t2, i2 + len2)));
        }
    }
}

/// The parser reads back exactly the object the encoder wrote.
proof fn lemma_sp_conn_complete(s: Seq<char>, i: int, c: ConnView)
    requires
        0 <= i,
        i + obj_of(c).len() <= s.len(),
        s.subrange(i, i + obj_of(c).len()) == obj_of(c),
    ensures
        sp_conn(s, i) == Some((c, i + obj_of(c).len())),
{
    reveal_strlit("{\"host\":\"");
    reveal_strlit("\",\"db_name\":\"");
    reveal_strlit("\",\"user\":\"");
    reveal_strlit("\",\"password\":\"");
    reveal_strlit("\",\"nickname\":\"");
    reveal_strlit("\"}");
    let p0 = "{\"host\":\""@;
    let e0 = esc_seq(c.host);
    let p1 = "\",\"db_name\":\""@;
    let e1 = esc_seq(c.db_name);
    let p2 = "\",\"user\":\""@;
    let e2 = esc_seq(c.user);
    let p3 = "\",\"password\":\""@;
    let e3 = esc_seq(c.password);
    let p4 = "\",\"nickname\":\""@;
    let e4 = esc_seq(c.nickname);
    let p5 = "\"}"@;
    let obj = obj_of(c);
    assert(p0.len() == 9);
    assert(p1.len() == 13);
    assert(p2.len() == 10);
    assert(p3.len() == 14);
    assert(p4.len() == 14);
    assert(p5.len() == 2);
    let o1 = i + 9;
    let q0 = o1 + e0.len();
    let o2 = q0 + 13;
    let q1 = o2 + e1.len();
    let o3 = q1 + 10;
    let q2 = o3 + e2.len();
    let o4 = q2 + 14;
    let q3 = o4 + e3.len();
    let o5 = q3 + 14;
    let q4 = o5 + e4.len();
    let end = q4 + 2;
    assert(obj.len() == 9 + e0.len() + 13 + e1.len() + 10 + e2.len() + 14 + e3.len() + 14
        + e4.len() + 2);
    assert(end == i + obj.len());
    assert forall|k: int| 0 <= k < obj.len() implies s[i + k] == obj[k] by {
        assert(s.subrange(i, i + obj.len())[k] == s[i + k]);
    }
    assert(s.subrange(i, o1) =~= p0) by {
        assert forall|k: int| 0 <= k < 9 implies s.subrange(i, o1)[k] == p0[k] by {
            assert(s.subrange(i, o1)[k] == s[i + k]);
            assert(obj[k] == p0[k]);
        }
    }
    assert(at_lit(s, i, p0));
    assert(s.subrange(o1, q0) =~= e0) by {
        assert forall|k: int| 0 <= k < e0.len() implies s.subrange(o1, q0)[k] == e0[k] by {
            assert(s.subrange(o1, q0)[k] == s[o1 + k]);
            assert(obj[9 + k] == e0[k]);
        }
    }
    assert(s[q0] == '"') by {
        assert(obj[q0 - i] == p1[0]);
    }
    lemma_sp_string_complete(s, o1, c.host);
    assert(sp_string(s, o1) == Some((c.host, q0)));
    assert(s.subrange(q0, o2) =~= p1) by {
        assert forall|k: int| 0 <= k < 13 implies s.subrange(q0, o2)[k] == p1[k] by {
            assert(s.subrange(q0, o2)[k] == s[q0 + k]);
            assert(obj[(q0 - i) + k] == p1[k]);
        }
    }
    assert(at_lit(s, q0, p1));
    assert(s.subrange(o2, q1) =~= e1) by {
        assert forall|k: int| 0 <= k < e1.len() implies s.subrange(o2, q1)[k] == e1[k] by {
            assert(s.subrange(o2, q1)[k] == s[o2 + k]);
            assert(obj[(o2 - i) + k] == e1[k]);
        }
    }
    assert(s[q1] == '"') by {
        assert(obj[q1 - i] == p2[0]);
    }
    lemma_sp_string_complete(s, o2, c.db_name);
    assert(sp_string(s, o2) == Some((c.db_name, q1)));
    assert(s.subrange(q1, o3) =~= p2) by {
        assert forall|k: int| 0 <= k < 10 implies s.subrange(q1, o3)[k] == p2[k] by {
            assert(s.subrange(q1, o3)[k] == s[q1 + k]);
            assert(obj[(q1 - i) + k] == p2[k]);
        }
    }
    assert(at_lit(s, q1, p2));
    assert(s.subrange(o3, q2) =~= e2) by {
        assert forall|k: int| 0 <= k < e2.len() implies s.subrange(o3, q2)[k] == e2[k] by {
            assert(s.subrange(o3, q2)[k] == s[o3 + k]);
            assert(obj[(o3 - i) + k] == e2[k]);
        }
    }
    assert(s[q2] == '"') by {
        assert(obj[q2 - i] == p3[0]);
    }
    lemma_sp_string_complete(s, o3, c.user);
    assert(sp_string(s, o3) == Some((c.user, q2)));
    assert(s.subrange(q2, o4) =~= p3) by {
        assert forall|k: int| 0 <= k < 14 implies s.subrange(q2, o4)[k] == p3[k] by {
            assert(s.subrange(q2, o4)[k] == s[q2 + k]);
            assert(obj[(q2 - i) + k] == p3[k]);
        }
    }
    assert(at_lit(s, q2, p3));
    assert(s.subrange(o4, q3) =~= e3) by {
        assert forall|k: int| 0 <= k < e3.len() implies s.subrange(o4, q3)[k] == e3[k] by {
            assert(s.subrange(o4, q3)[k] == s[o4 + k]);
            assert(obj[(o4 - i) + k] == e3[k]);
        }
    }
    assert(s[q3] == '"') by {
        assert(obj[q3 - i] == p4[0]);
    }
    lemma_sp_string_complete(s, o4, c.password);
    assert(sp_string(s, o4) == Some((c.password, q3)));
    assert(s.subrange(q3, o5) =~= p4) by {
        assert forall|k: int| 0 <= k < 14 implies s.subrange(q3, o5)[k] == p4[k] by {
            assert(s.subrange(q3, o5)[k] == s[q3 + k]);
            assert(obj[(q3 - i) + k] == p4[k]);
        }
    }
    assert(at_lit(s, q3, p4));
    assert(s.subrange(o5, q4) =~= e4) by {
        assert forall|k: int| 0 <= k < e4.len() implies s.subrange(o5, q4)[k] == e4[k] by {
            assert(s.subrange(o5, q4)[k] == s[o5 + k]);
            assert(obj[(o5 - i) + k] == e4[k]);
        }
    }
    assert(s[q4] == '"') by {
        assert(obj[q4 - i] == p5[0]);
    }
    lemma_sp_string_complete(s, o5, c.nickname);
    assert(sp_string(s, o5) == Some((c.nickname, q4)));
    assert(s.subrange(q4, end) =~= p5) by {
        assert forall|k: int| 0 <= k < 2 implies s.subrange(q4, end)[k] == p5[k] by {
            assert(s.subrange(q4, end)[k] == s[q4 + k]);
            assert(obj[(q4 - i) + k] == p5[k]);
        }
    }
    assert(at_lit(s, q4, p5));
    assert(c == ConnView {
        host: c.host,
        db_name: c.db_name,
        user: c.user,
        password: c.password,
        nickname: c.nickname,
    });
}

/// The parser reads back exactly the object list the encoder wrote.
proof fn lemma_sp_items_complete(s: Seq<char>, i: int, l: Seq<ConnView>)
    requires
        l.len() >= 1,
        0 <= i,
        i + list_body(l).len() + 1 <= s.len(),
        s.subrange(i, i + list_body(l).len() + 1) == list_body(l) + seq![']'],
    ensures
        sp_items(s, i) == Some((l, i + list_body(l).len() + 1)),
    decreases l.len(),
{
    let body = list_body(l);
    let bt = body + seq![']'];
    assert forall|k: int| 0 <= k < bt.len() implies s[i + k] == bt[k] by {
        assert(s.subrange(i, i + bt.len())[k] == s[i + k]);
    }
    let c = l[0];
    let ol = obj_of(c).len();
    if l.len() == 1 {
        assert(body == obj_of(c));
        assert(s.subrange(i, i + ol) =~= obj_of(c)) by {
            assert forall|k: int| 0 <= k < ol implies s.subrange(i, i + ol)[k] == obj_of(c)[k] by {
                assert(s.subrange(i, i + ol)[k] == s[i + k]);
                assert(bt[k] == obj_of(c)[k]);
            }
        }
        lemma_sp_conn_complete(s, i, c);
        let j = i + ol;
        assert(s[j] == ']') by {
            assert(bt[j - i] == ']');
        }
        assert(seq![c] =~= l);
        assert(sp_items(s, i) == Some((l, j + 1)));
    } else {
        let rest = l.drop_first();
        assert(body == obj_of(c) + seq![','] + list_body(rest));
        assert(s.subrange(i, i + ol) =~= obj_of(c)) by {
            assert forall|k: int| 0 <= k < ol implies s.subrange(i, i + ol)[k] == obj_of(c)[k] by {
                assert(s.subrange(i, i + ol)[k] == s[i + k]);
                assert(bt[k] == obj_of(c)[k]);
            }
        }
        lemma_sp_conn_complete(s, i, c);
        let j = i + ol;
        assert(s[j] == ',') by {
            assert(bt[j - i] == ',');
        }
        let i2 = j + 1;
        let rl = list_body(rest).len();
        assert(s.subrange(i2, i2 + rl + 1) =~= list_body(rest) + seq![']']) by {
            assert forall|k: int| 0 <= k < rl + 1 implies s.subrange(i2, i2 + rl + 1)[k] == (
            list_body(rest) + seq![']'])[k] by {
                assert(s.subrange(i2, i2 + rl + 1)[k] == s[i2 + k]);
                assert(bt[(i2 - i) + k] == (list_body(rest) + seq![']'])[k]);
            }
        }
        lemma_sp_items_complete(s, i2, rest);
        assert(seq![c] + rest =~= l);
        assert(sp_items(s, i) == Some((l, i2 + rl + 1)));
    }
}

/// The round trip through the canonical JSON form: parsing what the
/// encoder produced yields the original connection list, whatever it
/// holds.
pub proof fn lemma_json_round_trip(l: Seq<ConnView>)
    ensures
        sp_top(json_of(l)) == Some((l, json_of(l).len() as int)),
{
    let s = json_of(l);
    let body = list_body(l);
    if l.len() == 0 {
        assert(body == Seq::<char>::empty());
        assert(s.len() == 2);
        assert(s[0] == '[');
        assert(s[1] == ']');
        assert(l =~= Seq::<ConnView>::empty());
    } else {
        reveal_strlit("{\"host\":\"");
        assert(obj_of(l[0]).len() >= 9);
        assert(body.len() >= obj_of(l[0]).len()) by {
            if l.len() == 1 {
            } else {
                lemma_list_body_len(l.drop_first());
            }
        }
        assert(s.len() > 2);
        assert(s[0] == '[');
        assert(s.subrange(1, 1 + body.len() as int + 1) =~= body + seq![']']) by {
            assert forall|k: int| 0 <= k < body.len() + 1 implies s.subrange(
                1,
                1 + body.len() as int + 1,
            )[k] == (body + seq![']'])[k] by {
                assert(s.subrange(1, 1 + body.len() as int + 1)[k] == s[1 + k]);
            }
        }
        lemma_sp_items_complete(s, 1, l);
        assert(sp_items(s, 1) == Some((l, s.len() as int)));
        assert(!(s.len() == 2 && s[0] == '[' && s[1] == ']'));
    }
}

/// The body of a non-empty list is at least as long as its first object.
proof fn lemma_list_body_len(l: Seq<ConnView>)
    requires
        l.len() >= 1,
    ensures
        list_body(l).len() >= obj_of(l[0]).len(),
    decreases l.len(),
{
}

/// A character read back from a hexadecimal digit is that digit.
proof fn lemma_hex_char_val(x: char)
    requires
        hex_val(x) >= 0,
    ensures
        hex_char(hex_val(x)) == x,
{
}

/// Soundness of the string parser: whatever span it accepts is exactly
/// the escape of the content it returns, and it stops on a closing quote.
proof fn lemma_sp_string_sound(s: Seq<char>, i: int)
    requires
        sp_string(s, i) is Some,
    ensures
        ({
            let (t, j) = sp_string(s, i).unwrap();
            i <= j < s.len() && s[j] == '"' && s.subrange(i, j) == esc_seq(t)
        }),
    decreases s.len() - i,
{
    let (t, j) = sp_string(s, i).unwrap();
    if s[i] == '"' {
        assert(t =~= Seq::<char>::empty());
        assert(esc_seq(t) == Seq::<char>::empty());
        assert(s.subrange(i, i) =~= esc_seq(t));
    } else if s[i] == '\\' {
        let e = s[i + 1];
        if e == '"' || e == '\\' || e == 'b' || e == 't' || e == 'n' || e == 'f' || e == 'r' {
            let c = unesc_short(e);
            lemma_sp_string_sound(s, i + 2);
            let (t2, j2) = sp_string(s, i + 2).unwrap();
            assert(t == seq![c] + t2);
            assert(t.len() > 0);
            assert(t[0] == c);
            assert(t.drop_first() =~= t2);
            lemma_esc_seq_cons(t);
            assert(esc_char(c) =~= seq![s[i], s[i + 1]]);
            assert forall|k: int| 0 <= k < j - i implies s.subrange(i, j)[k] == (esc_char(c)
                + esc_seq(t2))[k] by {
                assert(s.subrange(i, j)[k] == s[i + k]);
                if k >= 2 {
                    assert(s.subrange(i + 2, j)[k - 2] == s[i + k]);
                }
            }
            assert(s.subrange(i, j) =~= esc_char(c) + esc_seq(t2));
        } else {
            let h1 = hex_val(s[i + 4]);
            let h2 = hex_val(s[i + 5]);
            let v = 16 * h1 + h2;
            let c = (v as u32) as char;
            lemma_sp_string_sound(s, i + 6);
            let (t2, j2) = sp_string(s, i + 6).unwrap();
            assert(t == seq![c] + t2);
            assert(t.len() > 0);
            assert(t[0] == c);
            assert(t.drop_first() =~= t2);
            lemma_esc_seq_cons(t);
            assert((c as u32) == v);
            assert(('"' as u32) == 0x22);
            assert(('\\' as u32) == 0x5c);
            assert(('\u{8}' as u32) == 8);
            assert(('\u{9}' as u32) == 9);
            assert(('\u{a}' as u32) == 10);
            assert(('\u{c}' as u32) == 12);
            assert(('\u{d}' as u32) == 13);
            assert(c != '"' && c != '\\' && c != '\u{8}' && c != '\u{9}' && c != '\u{a}' && c
                != '\u{c}' && c != '\u{d}');
            lemma_hex_char_val(s[i + 4]);
            lemma_hex_char_val(s[i + 5]);
            assert((c as u32) as int / 16 == h1);
            assert((c as u32) as int % 16 == h2);
            assert(esc_char(c) =~= seq![s[i], s[i + 1], s[i + 2], s[i + 3], s[i + 4], s[i + 5]]);
            assert forall|k: int| 0 <= k < j - i implies s.subrange(i, j)[k] == (esc_char(c)
                + esc_seq(t2))[k] by {
                assert(s.subrange(i, j)[k] == s[i + k]);
                if k >= 6 {
                    assert(s.subrange(i + 6, j)[k - 6] == s[i + k]);
                }
            }
            assert(s.subrange(i, j) =~= esc_char(c) + esc_seq(t2));
        }
    } else {
        let c = s[i];
        lemma_sp_string_sound(s, i + 1);
        let (t2, j2) = sp_string(s, i + 1).unwrap();
        assert(t == seq![c] + t2);
        assert(t.len() > 0);
        assert(t[0] == c);
        assert(t.drop_first() =~= t2);
        lemma_esc_seq_cons(t);
        assert(('\u{8}' as u32) == 8);
        assert(('\u{9}' as u32) == 9);
        assert(('\u{a}' as u32) == 10);
        assert(('\u{c}' as u32) == 12);
        assert(('\u{d}' as u32) == 13);
        assert(esc_char(c) =~= seq![c]);
        assert forall|k: int| 0 <= k < j - i implies s.subrange(i, j)[k] == (esc_char(c)
            + esc_seq(t2))[k] by {
            assert(s.subrange(i, j)[k] == s[i + k]);
            if k >= 1 {
                assert(s.subrange(i + 1, j)[k - 1] == s[i + k]);
            }
        }
        assert(s.subrange(i, j) =~= esc_char(c) + esc_seq(t2));
    }
}

/// Soundness of the object parser: the span it accepts is exactly the
/// encoding of the connection it returns.
proof fn lemma_sp_conn_sound(s: Seq<char>, i: int)
    requires
        sp_conn(s, i) is Some,
    ensures
        ({
            let (c, j) = sp_conn(s, i).unwrap();
            0 <= i && i < j <= s.len() && s.subrange(i, j) == obj_of(c)
        }),
{
    reveal_strlit("{\"host\":\"");
    reveal_strlit("\",\"db_name\":\"");
    reveal_strlit("\",\"user\":\"");
    reveal_strlit("\",\"password\":\"");
    reveal_strlit("\",\"nickname\":\"");
    reveal_strlit("\"}");
    let p0 = "{\"host\":\""@;
    let p1 = "\",\"db_name\":\""@;
    let p2 = "\",\"user\":\""@;
    let p3 = "\",\"password\":\""@;
    let p4 = "\",\"nickname\":\""@;
    let p5 = "\"}"@;
    assert(p0.len() == 9);
    assert(p1.len() == 13);
    assert(p2.len() == 10);
    assert(p3.len() == 14);
    assert(p4.len() == 14);
    assert(p5.len() == 2);
    let (c, j) = sp_conn(s, i).unwrap();
    let o1 = i + 9;
    lemma_sp_string_sound(s, o1);
    let (host, j0) = sp_string(s, o1).unwrap();
    let o2 = j0 + 13;
    lemma_sp_string_sound(s, o2);
    let (db_name, j1) = sp_string(s, o2).unwrap();
    let o3 = j1 + 10;
    lemma_sp_string_sound(s, o3);
    let (user, j2) = sp_string(s, o3).unwrap();
    let o4 = j2 + 14;
    lemma_sp_string_sound(s, o4);
    let (password, j3) = sp_string(s, o4).unwrap();
    let o5 = j3 + 14;
    lemma_sp_string_sound(s, o5);
    let (nickname, j4) = sp_string(s, o5).unwrap();
    assert(c == ConnView { host, db_name, user, password, nickname });
    assert(j == j4 + 2);
    let e0 = esc_seq(host);
    let e1 = esc_seq(db_name);
    let e2 = esc_seq(user);
    let e3 = esc_seq(password);
    let e4 = esc_seq(nickname);
    let obj = obj_of(c);
    assert(obj.len() == 9 + e0.len() + 13 + e1.len() + 10 + e2.len() + 14 + e3.len() + 14
        + e4.len() + 2);
    assert(j0 == o1 + e0.len());
    assert(j1 == o2 + e1.len());
    assert(j2 == o3 + e2.len());
    assert(j3 == o4 + e3.len());
    assert(j4 == o5 + e4.len());
    assert forall|k: int| 0 <= k < 9 implies s[i + k] == p0[k] by {
        assert(s.subrange(i, i + p0.len() as int)[k] == s[i + k]);
    }
    assert forall|k: int| 0 <= k < e0.len() implies s[o1 + k] == e0[k] by {
        assert(s.subrange(o1, j0)[k] == s[o1 + k]);
    }
    assert forall|k: int| 0 <= k < 13 implies s[j0 + k] == p1[k] by {
        assert(s.subrange(j0, j0 + p1.len() as int)[k] == s[j0 + k]);
    }
    assert forall|k: int| 0 <= k < e1.len() implies s[o2 + k] == e1[k] by {
        assert(s.subrange(o2, j1)[k] == s[o2 + k]);
    }
    assert forall|k: int| 0 <= k < 10 implies s[j1 + k] == p2[k] by {
        assert(s.subrange(j1, j1 + p2.len() as int)[k] == s[j1 + k]);
    }
    assert forall|k: int| 0 <= k < e2.len() implies s[o3 + k] == e2[k] by {
        assert(s.subrange(o3, j2)[k] == s[o3 + k]);
    }
    assert forall|k: int| 0 <= k < 14 implies s[j2 + k] == p3[k] by {
        assert(s.subrange(j2, j2 + p3.len() as int)[k] == s[j2 + k]);
    }
    assert forall|k: int| 0 <= k < e3.len() implies s[o4 + k] == e3[k] by {
        assert(s.subrange(o4, j3)[k] == s[o4 + k]);
    }
    assert forall|k: int| 0 <= k < 14 implies s[j3 + k] == p4[k] by {
        assert(s.subrange(j3, j3 + p4.len() as int)[k] == s[j3 + k]);
    }
    assert forall|k: int| 0 <= k < e4.len() implies s[o5 + k] == e4[k] by {
        assert(s.subrange(o5, j4)[k] == s[o5 + k]);
    }
    assert forall|k: int| 0 <= k < 2 implies s[j4 + k] == p5[k] by {
        assert(s.subrange(j4, j4 + p5.len() as int)[k] == s[j4 + k]);
    }
    assert forall|k: int| 0 <= k < j - i implies s.subrange(i, j)[k] == obj[k] by {
        assert(s.subrange(i, j)[k] == s[i + k]);
        if k < 9 {
            assert(s[i + k] == p0[k]);
        } else if k < (j0 - i) {
            assert(s[i + k] == e0[k - 9]);
        } else if k < (o2 - i) {
            assert(s[i + k] == p1[k - (j0 - i)]);
        } else if k < (j1 - i) {
            assert(s[i + k] == e1[k - (o2 - i)]);
        } else if k < (o3 - i) {
            assert(s[i + k] == p2[k - (j1 - i)]);
        } else if k < (j2 - i) {
            assert(s[i + k] == e2[k - (o3 - i)]);
        } else if k < (o4 - i) {
            assert(s[i + k] == p3[k - (j2 - i)]);
        } else if k < (j3 - i) {
            assert(s[i + k] == e3[k - (o4 - i)]);
        } else if k < (o5 - i) {
            assert(s[i + k] == p4[k - (j3 - i)]);
        } else if k < (j4 - i) {
            assert(s[i + k] == e4[k - (o5 - i)]);
        } else {
            assert(s[i + k] == p5[k - (j4 - i)]);
        }
    }
    assert(s.subrange(i, j) =~= obj);
}

/// Soundness of the list parser: the span it accepts is exactly the body
/// it returns, closed by the array's final bracket.
proof fn lemma_sp_items_sound(s: Seq<char>, i: int)
    requires
        sp_items(s, i) is Some,
    ensures
        ({
            let (l, j) = sp_items(s, i).unwrap();
            l.len() >= 1 && 0 <= i && i < j <= s.len() && s.subrange(i, j) == list_body(l)
                + seq![']']
        }),
    decreases s.len() - i,
{
    let (l, j) = sp_items(s, i).unwrap();
    lemma_sp_conn_sound(s, i);
    let (c, jc) = sp_conn(s, i).unwrap();
    let obj = obj_of(c);
    assert(jc - i == obj.len()) by {
        assert(s.subrange(i, jc).len() == obj.len());
    }
    assert forall|k: int| 0 <= k < jc - i implies s[i + k] == obj[k] by {
        assert(s.subrange(i, jc)[k] == s[i + k]);
    }
    if jc < s.len() && s[jc] == ']' {
        assert(l =~= seq![c]);
        assert(list_body(l) == obj_of(l[0]));
        assert forall|k: int| 0 <= k < j - i implies s.subrange(i, j)[k] == (list_body(l)
            + seq![']'])[k] by {
            assert(s.subrange(i, j)[k] == s[i + k]);
            if k < jc - i {
                assert(s[i + k] == obj[k]);
            } else {
                assert(i + k == jc);
            }
        }
        assert(s.subrange(i, j) =~= list_body(l) + seq![']']);
    } else {
        lemma_sp_items_sound(s, jc + 1);
        let (l2, j2) = sp_items(s, jc + 1).unwrap();
        assert(l == seq![c] + l2);
        assert(j == j2);
        assert(l.len() >= 2);
        assert(l[0] == c);
        assert(l.drop_first() =~= l2);
        assert(list_body(l) == obj_of(c) + seq![','] + list_body(l2));
        let tail = list_body(l2) + seq![']'];
        assert(j - (jc + 1) == tail.len()) by {
            assert(s.subrange(jc + 1, j).len() == tail.len());
        }
        assert forall|k: int| 0 <= k < j - (jc + 1) implies s[jc + 1 + k] == tail[k] by {
            assert(s.subrange(jc + 1, j)[k] == s[jc + 1 + k]);
        }
        assert forall|k: int| 0 <= k < j - i implies s.subrange(i, j)[k] == (list_body(l)
            + seq![']'])[k] by {
            assert(s.subrange(i, j)[k] == s[i + k]);
            if k < jc - i {
                assert(s[i + k] == obj[k]);
            } else if k == jc - i {
                assert(s[i + k] == s[jc]);
            } else {
                assert(s[i + k] == s[jc + 1 + (k - (jc - i) - 1)]);
                assert(s[jc + 1 + (k - (jc - i) - 1)] == tail[k - (jc - i) - 1]);
            }
        }
        assert(s.subrange(i, j) =~= list_body(l) + seq![']']);
    }
}

/// Soundness of the whole parser: any text it accepts is the canonical
/// JSON form of the list it returns.  Together with the round-trip lemma
/// this makes the parser an exact inverse of the encoder: it accepts the
/// encoder's output and nothing else.
pub proof fn lemma_sp_top_sound(s: Seq<char>)
    requires
        sp_top(s) is Some,
    ensures
        s == json_of(sp_top(s).unwrap().0),
{
    let (l, k) = sp_top(s).unwrap();
    if s.len() == 2 && s[0] == '[' && s[1] == ']' {
        assert(l =~= Seq::<ConnView>::empty());
        assert(list_body(l) == Seq::<char>::empty());
        assert(json_of(l) =~= s);
    } else {
        lemma_sp_items_sound(s, 1);
        let (l2, k2) = sp_items(s, 1).unwrap();
        assert(l == l2);
        assert(k == s.len());
        let tail = list_body(l) + seq![']'];
        assert(s.len() - 1 == tail.len()) by {
            assert(s.subrange(1, k2).len() == tail.len());
        }
        assert forall|k3: int| 0 <= k3 < s.len() - 1 implies s[1 + k3] == tail[k3] by {
            assert(s.subrange(1, k2)[k3] == s[1 + k3]);
        }
        assert forall|k3: int| 0 <= k3 < s.len() implies s[k3] == json_of(l)[k3] by {
            if k3 >= 1 {
                assert(s[k3] == tail[k3 - 1]);
            }
        }
        assert(json_of(l) =~= s);
    }
}

} // verus!
