use vstd::prelude::*;

use crate::escape::escape_minimal;
use crate::escape::html_escape;
use crate::strorder::str_views;
use crate::strutil::push_char;

verus! {

/// The pieces `f` makes of each element, concatenated in order.
pub open spec fn cat_map(s: Seq<Seq<char>>, f: spec_fn(Seq<char>) -> Seq<char>) -> Seq<char>
    decreases s.len(),
{
    if s.len() == 0 {
        Seq::empty()
    } else {
        f(s[0]) + cat_map(s.drop_first(), f)
    }
}

/// Taking one more element appends its piece.
pub proof fn lemma_cat_map_snoc(s: Seq<Seq<char>>, f: spec_fn(Seq<char>) -> Seq<char>, i: int)
    requires
        0 <= i < s.len(),
    ensures
        cat_map(s.take(i + 1), f) == cat_map(s.take(i), f) + f(s[i]),
    decreases i,
{
    if i == 0 {
        assert(s.take(1).len() == 1);
        assert(s.take(1)[0] == s[0]);
        assert(s.take(1).drop_first() =~= Seq::<Seq<char>>::empty());
        assert(s.take(0) =~= Seq::<Seq<char>>::empty());
        assert(cat_map(Seq::<Seq<char>>::empty(), f) == Seq::<char>::empty());
        assert(cat_map(s.take(1), f) == f(s.take(1)[0]) + cat_map(s.take(1).drop_first(), f));
        assert(cat_map(s.take(1), f) =~= cat_map(s.take(0), f) + f(s[0]));
    } else {
        let u = s.drop_first();
        lemma_cat_map_snoc(u, f, i - 1);
        assert(s.take(i + 1).drop_first() =~= u.take(i));
        assert(s.take(i).drop_first() =~= u.take(i - 1));
        assert(s.take(i + 1)[0] == s[0]);
        assert(s.take(i)[0] == s[0]);
        assert(cat_map(s.take(i + 1), f) == f(s[0]) + cat_map(u.take(i), f));
        assert(cat_map(s.take(i), f) == f(s[0]) + cat_map(u.take(i - 1), f));
        assert(u[i - 1] == s[i]);
        assert(cat_map(s.take(i + 1), f) =~= cat_map(s.take(i), f) + f(s[i]));
    }
}

/// The pieces `f` makes of each element, joined by newlines.
pub open spec fn join_nl(s: Seq<Seq<Seq<char>>>, f: spec_fn(Seq<Seq<char>>) -> Seq<char>) -> Seq<
    char,
>
    decreases s.len(),
{
    if s.len() == 0 {
        Seq::empty()
    } else if s.len() == 1 {
        f(s[0])
    } else {
        f(s[0]) + seq!['\n'] + join_nl(s.drop_first(), f)
    }
}

/// Taking one more element appends a separator (after the first) and its
/// piece.
pub proof fn lemma_join_nl_snoc(
    s: Seq<Seq<Seq<char>>>,
    f: spec_fn(Seq<Seq<char>>) -> Seq<char>,
    i: int,
)
    requires
        0 <= i < s.len(),
    ensures
        join_nl(s.take(i + 1), f) == if i == 0 {
            f(s[0])
        } else {
            join_nl(s.take(i), f) + seq!['\n'] + f(s[i])
        },
    decreases i,
{
    if i == 0 {
        assert(s.take(1).len() == 1);
        assert(s.take(1)[0] == s[0]);
        assert(join_nl(s.take(1), f) == f(s[0]));
    } else {
        let u = s.drop_first();
        lemma_join_nl_snoc(u, f, i - 1);
        assert(s.take(i + 1).drop_first() =~= u.take(i));
        assert(s.take(i).drop_first() =~= u.take(i - 1));
        assert(s.take(i + 1)[0] == s[0]);
        assert(s.take(i)[0] == s[0]);
        assert(s.take(i + 1).len() == i + 1);
        assert(s.take(i).len() == i);
        assert(join_nl(s.take(i + 1), f) == f(s[0]) + seq!['\n'] + join_nl(u.take(i), f));
        if i == 1 {
            assert(join_nl(s.take(1), f) == f(s[0]));
            assert(join_nl(u.take(1), f) == f(u[0]));
            assert(u[0] == s[1]);
            assert(join_nl(s.take(2), f) =~= join_nl(s.take(1), f) + seq!['\n'] + f(s[1]));
        } else {
            assert(join_nl(s.take(i), f) == f(s[0]) + seq!['\n'] + join_nl(u.take(i - 1), f));
            assert(u[i - 1] == s[i]);
            assert(join_nl(s.take(i + 1), f) =~= join_nl(s.take(i), f) + seq!['\n'] + f(s[i]));
        }
    }
}

/// One header cell.
pub open spec fn th_cell(h: Seq<char>) -> Seq<char> {
    "<th>"@ + escape_minimal(h) + "</th>"@
}

/// One data cell.
pub open spec fn td_cell(v: Seq<char>) -> Seq<char> {
    "<td>"@ + escape_minimal(v) + "</td>"@
}

/// One table row of data cells.
pub open spec fn tr_row(row: Seq<Seq<char>>) -> Seq<char> {
    "<tr>"@ + cat_map(row, |v: Seq<char>| td_cell(v)) + "</tr>"@
}

/// The result table as HTML: a placeholder when there is nothing to show,
/// else a header row and one row per result, every value HTML-escaped.
pub open spec fn table_seq(headers: Seq<Seq<char>>, rows: Seq<Seq<Seq<char>>>) -> Seq<char> {
    if rows.len() == 0 || headers.len() == 0 {
        "<pre>No output yet.</pre>"@
    } else {
        "<table class=\"grid\"><thead>"@ + "<tr>"@ + cat_map(headers, |h: Seq<char>| th_cell(h))
            + "</tr>"@ + "</thead><tbody>"@ + join_nl(rows, |row: Seq<Seq<char>>| tr_row(row))
            + "</tbody></table>"@
    }
}

/// Render one row's cells.
fn render_cells(row: &Vec<String>) -> (r: String)
    ensures
        r@ == tr_row(str_views(row@)),
{
    let ghost rv = str_views(row@);
    let ghost td = |v: Seq<char>| td_cell(v);
    let mut s = "<tr>".to_owned();
    let m = row.len();
    let mut j: usize = 0;
    while j < m
        invariant
            m == row@.len(),
            rv == str_views(row@),
            td == (|v: Seq<char>| td_cell(v)),
            0 <= j <= m,
            s@ == "<tr>"@ + cat_map(rv.take(j as int), td),
        decreases m - j,
    {
        s.append("<td>");
        s.append(html_escape(row[j].as_str()).as_str());
        s.append("</td>");
        proof {
            assert(rv[j as int] == row@[j as int]@);
            lemma_cat_map_snoc(rv, td, j as int);
            assert(s@ =~= "<tr>"@ + cat_map(rv.take(j + 1), td));
        }
        j = j + 1;
    }
    s.append("</tr>");
    proof {
        assert(rv.take(m as int) =~= rv);
        assert(s@ =~= tr_row(rv));
    }
    s
}

/// Render an ordered result table, or a placeholder when it is empty.
pub fn render_table(headers: &[String], results: &[Vec<String>]) -> (r: String)
    ensures
        r@ == table_seq(
            str_views(headers@),
            results@.map_values(|v: Vec<String>| str_views(v@)),
        ),
{
    let ghost hv = str_views(headers@);
    let ghost rows = results@.map_values(|v: Vec<String>| str_views(v@));
    if results.len() == 0 || headers.len() == 0 {
        return "<pre>No output yet.</pre>".to_owned();
    }
    let ghost th = |h: Seq<char>| th_cell(h);
    let ghost tr = |row: Seq<Seq<char>>| tr_row(row);
    let mut thead = "<tr>".to_owned();
    let hn = headers.len();
    let mut j: usize = 0;
    while j < hn
        invariant
            hn == headers@.len(),
            hv == str_views(headers@),
            th == (|h: Seq<char>| th_cell(h)),
            0 <= j <= hn,
            thead@ == "<tr>"@ + cat_map(hv.take(j as int), th),
        decreases hn - j,
    {
        thead.append("<th>");
        thead.append(html_escape(headers[j].as_str()).as_str());
        thead.append("</th>");
        proof {
            assert(hv[j as int] == headers@[j as int]@);
            lemma_cat_map_snoc(hv, th, j as int);
            assert(thead@ =~= "<tr>"@ + cat_map(hv.take(j + 1), th));
        }
        j = j + 1;
    }
    thead.append("</tr>");
    let mut tbody = String::new();
    let n = results.len();
    let mut i: usize = 0;
    while i < n
        invariant
            n == results@.len(),
            rows == results@.map_values(|v: Vec<String>| str_views(v@)),
            tr == (|row: Seq<Seq<char>>| tr_row(row)),
            0 <= i <= n,
            tbody@ == join_nl(rows.take(i as int), tr),
        decreases n - i,
    {
        if i > 0 {
            push_char(&mut tbody, '\n');
        }
        let rh = render_cells(&results[i]);
        tbody.append(rh.as_str());
        proof {
            assert(rows[i as int] == str_views(results@[i as int]@));
            lemma_join_nl_snoc(rows, tr, i as int);
            assert(tbody@ =~= join_nl(rows.take(i + 1), tr));
        }
        i = i + 1;
    }
    let mut out = "<table class=\"grid\"><thead>".to_owned();
    out.append(thead.as_str());
    out.append("</thead><tbody>");
    out.append(tbody.as_str());
    out.append("</tbody></table>");
    proof {
        assert(hv.take(hn as int) =~= hv);
        assert(rows.take(n as int) =~= rows);
        assert(out@ =~= table_seq(hv, rows));
    }
    out
}

/// The DSN the executor connects with, assembled from a descriptor.
pub open spec fn dsn_seq(user: Seq<char>, password: Seq<char>, host: Seq<char>, db: Seq<char>) -> Seq<
    char,
> {
    "postgres://"@ + user + seq![':'] + password + seq!['@'] + host + seq!['/'] + db
}

/// Assemble the connection string for a descriptor.
pub fn build_dsn(conn: &crate::models::DbConnection) -> (r: String)
    ensures
        r@ == dsn_seq(conn.user@, conn.password@, conn.host@, conn.db_name@),
{
    let mut s = "postgres://".to_owned();
    s.append(conn.user.as_str());
    push_char(&mut s, ':');
    s.append(conn.password.as_str());
    push_char(&mut s, '@');
    s.append(conn.host.as_str());
    push_char(&mut s, '/');
    s.append(conn.db_name.as_str());
    proof {
        assert(s@ =~= dsn_seq(conn.user@, conn.password@, conn.host@, conn.db_name@));
    }
    s
}

/// The inline message for an unknown connection nickname.
pub open spec fn not_found_msg(nick: Seq<char>) -> Seq<char> {
    "<div style=\"color:var(--link-hover);\">Error: Connection '"@ + escape_minimal(nick)
        + "' not found.</div>"@
}

/// The inline message for a failed connection attempt.
pub open spec fn connect_error_msg(err: Seq<char>) -> Seq<char> {
    "<div style=\"color:var(--link-hover);\">DB connect error: "@ + escape_minimal(err)
        + "</div>"@
}

/// The inline message for a query the database rejected.
pub open spec fn query_error_msg(err: Seq<char>) -> Seq<char> {
    "<div style=\"color:var(--link-hover);\">Query error: "@ + escape_minimal(err)
        + "</div></div>"@
}

/// What running a query can fail with: an unknown nickname, a failure to
/// open the connection, or a failure of the query itself; the latter two
/// carry the driver's message.
pub enum ExecutionError {
    ConnectionNotFound,
    ConnectError(String),
    QueryError(String),
}

impl ExecutionError {
    /// The display form of each error, for a given connection nickname;
    /// driver messages are HTML-escaped and never control page structure.
    pub open spec fn msg_seq(self, nick: Seq<char>) -> Seq<char> {
        match self {
            ExecutionError::ConnectionNotFound => not_found_msg(nick),
            ExecutionError::ConnectError(e) => connect_error_msg(e@),
            ExecutionError::QueryError(e) => query_error_msg(e@),
        }
    }

    /// Render the error as inline display text.
    pub fn to_message(&self, nick: &str) -> (r: String)
        ensures
            r@ == self.msg_seq(nick@),
    {
        match self {
            ExecutionError::ConnectionNotFound => {
                let mut s = "<div style=\"color:var(--link-hover);\">Error: Connection '"
                    .to_owned();
                s.append(html_escape(nick).as_str());
                s.append("' not found.</div>");
                proof {
                    assert(s@ =~= not_found_msg(nick@));
                }
                s
            },
            ExecutionError::ConnectError(e) => {
                let mut s = "<div style=\"color:var(--link-hover);\">DB connect error: "
                    .to_owned();
                s.append(html_escape(e.as_str()).as_str());
                s.append("</div>");
                proof {
                    assert(s@ =~= connect_error_msg(e@));
                }
                s
            },
            ExecutionError::QueryError(e) => {
                let mut s = "<div style=\"color:var(--link-hover);\">Query error: ".to_owned();
                s.append(html_escape(e.as_str()).as_str());
                s.append("</div></div>");
                proof {
                    assert(s@ =~= query_error_msg(e@));
                }
                s
            },
        }
    }
}

/// The pieces `f` makes of each element, joined by a separator.
pub open spec fn joined<A>(s: Seq<A>, f: spec_fn(A) -> Seq<char>, sep: Seq<char>) -> Seq<char>
    decreases s.len(),
{
    if s.len() == 0 {
        Seq::empty()
    } else if s.len() == 1 {
        f(s[0])
    } else {
        f(s[0]) + sep + joined(s.drop_first(), f, sep)
    }
}

/// Taking one more element appends the separator (after the first) and
/// that element's piece.
pub proof fn lemma_joined_snoc<A>(s: Seq<A>, f: spec_fn(A) -> Seq<char>, sep: Seq<char>, i: int)
    requires
        0 <= i < s.len(),
    ensures
        joined(s.take(i + 1), f, sep) == if i == 0 {
            f(s[0])
        } else {
            joined(s.take(i), f, sep) + sep + f(s[i])
        },
    decreases i,
{
    if i == 0 {
        assert(s.take(1).len() == 1);
        assert(s.take(1)[0] == s[0]);
        assert(joined(s.take(1), f, sep) == f(s[0]));
    } else {
        let u = s.drop_first();
        lemma_joined_snoc(u, f, sep, i - 1);
        assert(s.take(i + 1).drop_first() =~= u.take(i));
        assert(s.take(i).drop_first() =~= u.take(i - 1));
        assert(s.take(i + 1)[0] == s[0]);
        assert(s.take(i)[0] == s[0]);
        assert(s.take(i + 1).len() == i + 1);
        assert(s.take(i).len() == i);
        assert(joined(s.take(i + 1), f, sep) == f(s[0]) + sep + joined(u.take(i), f, sep));
        if i == 1 {
            assert(joined(s.take(1), f, sep) == f(s[0]));
            assert(joined(u.take(1), f, sep) == f(u[0]));
            assert(u[0] == s[1]);
            assert(joined(s.take(2), f, sep) =~= joined(s.take(1), f, sep) + sep + f(s[1]));
        } else {
            assert(joined(s.take(i), f, sep) == f(s[0]) + sep + joined(u.take(i - 1), f, sep));
            assert(u[i - 1] == s[i]);
            assert(joined(s.take(i + 1), f, sep) =~= joined(s.take(i), f, sep) + sep + f(s[i]));
        }
    }
}

} // verus!
