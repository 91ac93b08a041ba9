use vstd::prelude::*;

use crate::escape::escape_minimal;
use crate::escape::html_escape;
use crate::htmlview::cat_map;
use crate::htmlview::joined;
use crate::htmlview::lemma_cat_map_snoc;
use crate::htmlview::lemma_joined_snoc;
use crate::models::Theme;
use crate::pages::add_button_seq;
use crate::pages::modal_seq;
use crate::pages::theme_vars_seq;
use crate::results::assoc_views;
use crate::strorder::sort_strings;
use crate::strorder::str_leq;
use crate::strorder::str_views;
use crate::strutil::str_eq;

verus! {

/// The URL of every shortcut pair, in pair order.
pub open spec fn urls_of(pairs: Seq<(Seq<char>, Seq<char>)>) -> Seq<Seq<char>> {
    pairs.map_values(|p: (Seq<char>, Seq<char>)| p.1)
}

/// Consecutive duplicates removed (applied to a sorted sequence, this
/// leaves each URL once).
pub open spec fn dedup_runs(s: Seq<Seq<char>>) -> Seq<Seq<char>>
    decreases s.len(),
{
    if s.len() <= 1 {
        s
    } else if s[0] == s[1] {
        dedup_runs(s.drop_first())
    } else {
        seq![s[0]] + dedup_runs(s.drop_first())
    }
}

/// The distinct URLs of the table, in lexicographic order.
pub open spec fn group_urls(pairs: Seq<(Seq<char>, Seq<char>)>) -> Seq<Seq<char>> {
    dedup_runs(urls_of(pairs).sort_by(str_leq()))
}

/// The keys stored under one URL, sorted.
pub open spec fn keys_for(pairs: Seq<(Seq<char>, Seq<char>)>, url: Seq<char>) -> Seq<Seq<char>> {
    pairs.filter(|p: (Seq<char>, Seq<char>)| p.1 == url).map_values(
        |p: (Seq<char>, Seq<char>)| p.0,
    ).sort_by(str_leq())
}

/// One key as a link with its inline delete form.
pub open spec fn key_link(k: Seq<char>) -> Seq<char> {
    "<span style='white-space: nowrap;'><a href=\"/"@ + escape_minimal(k) + "\">"@ + escape_minimal(k) + "</a>"@ + "\n                    <form action=\"/delete_shortcut\" method=\"POST\" style=\"display:inline; margin-left: 5px;\" onsubmit=\"return confirm('Are you sure you want to delete shortcut: "@ + escape_minimal(k)
        + "?');\">\n                        <input type=\"hidden\" name=\"key\" value=\""@ + escape_minimal(k) + "\">\n                        <button type=\"submit\" class=\"delete-button\" title=\"Delete "@ + escape_minimal(k) + "\" style=\"background: none; border: none; color: #ff6347; padding: 0; cursor: pointer; margin: 0; font-size: 10px; line-height: 1;\">X</button>\n                    </form>\n                    "@ + "</span>"@
}

/// One table row: all keys of one URL, then the URL.
pub open spec fn group_row(pairs: Seq<(Seq<char>, Seq<char>)>, url: Seq<char>) -> Seq<char> {
    "<tr><td class=\"keys\">"@ + joined(keys_for(pairs, url), |k: Seq<char>| key_link(k), " , "@) + "</td><td class=\"url\">"@
        + escape_minimal(url) + "</td></tr>"@
}

/// The rows of the shortcut table: one per distinct URL, URLs sorted,
/// keys sorted within each row.
pub open spec fn shortcut_rows(pairs: Seq<(Seq<char>, Seq<char>)>) -> Seq<char> {
    cat_map(group_urls(pairs), |u: Seq<char>| group_row(pairs, u))
}

/// The shortcut table markup.
pub open spec fn shortcuts_table_seq(pairs: Seq<(Seq<char>, Seq<char>)>) -> Seq<char> {
    "\n    <table class=\"grid\">\n      <thead>\n        <tr><th>Shortcut Keys</th><th>Destination URL</th></tr>\n      </thead>\n      <tbody>\n        "@ + shortcut_rows(pairs) + "\n      </tbody>\n    </table>\n    "@
}

/// The keys stored under one URL, in pair order, before sorting.
pub open spec fn keys_raw(pairs: Seq<(Seq<char>, Seq<char>)>, url: Seq<char>) -> Seq<Seq<char>> {
    pairs.filter(|p: (Seq<char>, Seq<char>)| p.1 == url).map_values(
        |p: (Seq<char>, Seq<char>)| p.0,
    )
}

/// Taking one more element of a run-free scan extends the result exactly
/// when the element differs from its predecessor.
proof fn lemma_dedup_snoc(s: Seq<Seq<char>>, i: int)
    requires
        0 <= i < s.len(),
    ensures
        dedup_runs(s.take(i + 1)) == if i == 0 {
            seq![s[0]]
        } else if s[i] == s[i - 1] {
            dedup_runs(s.take(i))
        } else {
            dedup_runs(s.take(i)) + seq![s[i]]
        },
    decreases i,
{
    if i == 0 {
        assert(s.take(1) =~= seq![s[0]]);
    } else if i == 1 {
        assert(s.take(2).len() == 2);
        assert(s.take(2)[0] == s[0]);
        assert(s.take(2)[1] == s[1]);
        assert(s.take(2).drop_first() =~= seq![s[1]]);
        assert(dedup_runs(seq![s[1]]) == seq![s[1]]);
        assert(s.take(1) =~= seq![s[0]]);
        assert(dedup_runs(s.take(1)) == seq![s[0]]);
        if s[1] == s[0] {
            assert(dedup_runs(s.take(2)) =~= dedup_runs(s.take(1)));
        } else {
            assert(dedup_runs(s.take(2)) =~= dedup_runs(s.take(1)) + seq![s[1]]);
        }
    } else {
        let u = s.drop_first();
        lemma_dedup_snoc(u, i - 1);
        assert(s.take(i + 1).drop_first() =~= u.take(i));
        assert(s.take(i).drop_first() =~= u.take(i - 1));
        assert(s.take(i + 1)[0] == s[0]);
        assert(s.take(i + 1)[1] == s[1]);
        assert(s.take(i)[0] == s[0]);
        assert(s.take(i)[1] == s[1]);
        assert(s.take(i + 1).len() == i + 1);
        assert(s.take(i).len() == i);
        assert(u[i - 1] == s[i]);
        assert(u[i - 2] == s[i - 1]);
        if s[0] == s[1] {
            assert(dedup_runs(s.take(i + 1)) == dedup_runs(u.take(i)));
            assert(dedup_runs(s.take(i)) == dedup_runs(u.take(i - 1)));
        } else {
            assert(dedup_runs(s.take(i + 1)) == seq![s[0]] + dedup_runs(u.take(i)));
            assert(dedup_runs(s.take(i)) == seq![s[0]] + dedup_runs(u.take(i - 1)));
        }
        if s[i] == s[i - 1] {
        } else {
            if s[0] == s[1] {
            } else {
                assert(seq![s[0]] + (dedup_runs(u.take(i - 1)) + seq![s[i]]) =~= (seq![s[0]]
                    + dedup_runs(u.take(i - 1))) + seq![s[i]]);
            }
        }
    }
}

/// Consecutive duplicates dropped from a vector of strings.
fn dedup_sorted_exec(v: &Vec<String>) -> (r: Vec<String>)
    ensures
        str_views(r@) == dedup_runs(str_views(v@)),
{
    let ghost sv = str_views(v@);
    let n = v.len();
    let mut out: Vec<String> = Vec::new();
    let mut i: usize = 0;
    proof {
        assert(str_views(out@) =~= dedup_runs(sv.take(0)));
    }
    while i < n
        invariant
            n == v@.len(),
            sv == str_views(v@),
            0 <= i <= n,
            str_views(out@) == dedup_runs(sv.take(i as int)),
        decreases n - i,
    {
        proof {
            assert(sv[i as int] == v@[i as int]@);
            lemma_dedup_snoc(sv, i as int);
        }
        if i == 0 || !str_eq(v[i - 1].as_str(), v[i].as_str()) {
            let ghost oprev = out@;
            out.push(v[i].clone());
            proof {
                if i > 0 {
                    assert(sv[i - 1] == v@[i - 1]@);
                }
                oprev.lemma_push_map_commute(|s: String| s@, out@[out@.len() - 1]);
                assert(str_views(out@) =~= dedup_runs(sv.take(i + 1)));
            }
        } else {
            proof {
                assert(sv[i - 1] == v@[i - 1]@);
                assert(str_views(out@) =~= dedup_runs(sv.take(i + 1)));
            }
        }
        i = i + 1;
    }
    proof {
        assert(sv.take(n as int) =~= sv);
    }
    out
}

/// The keys stored under one URL, in pair order.
fn keys_of_url(pairs: &Vec<(String, String)>, url: &str) -> (r: Vec<String>)
    ensures
        str_views(r@) == keys_raw(assoc_views(pairs@), url@),
{
    let ghost pv = assoc_views(pairs@);
    let ghost pred = |p: (Seq<char>, Seq<char>)| p.1 == url@;
    let ghost kf = |p: (Seq<char>, Seq<char>)| p.0;
    let n = pairs.len();
    let mut out: Vec<String> = Vec::new();
    let mut j: usize = 0;
    proof {
        reveal(Seq::filter);
        assert(pv.take(0) =~= Seq::<(Seq<char>, Seq<char>)>::empty());
        assert(Seq::<(Seq<char>, Seq<char>)>::empty().filter(pred) =~= Seq::<(
            Seq<char>,
            Seq<char>,
        )>::empty());
        assert(str_views(out@) =~= pv.take(0).filter(pred).map_values(kf));
    }
    while j < n
        invariant
            n == pairs@.len(),
            pv == assoc_views(pairs@),
            pred == (|p: (Seq<char>, Seq<char>)| p.1 == url@),
            kf == (|p: (Seq<char>, Seq<char>)| p.0),
            0 <= j <= n,
            str_views(out@) == pv.take(j as int).filter(pred).map_values(kf),
        decreases n - j,
    {
        proof {
            reveal(Seq::filter);
            assert(pv[j as int] == (pairs@[j as int].0@, pairs@[j as int].1@));
            assert(pv.take(j + 1) =~= pv.take(j as int).push(pv[j as int]));
            assert(pv.take(j + 1).drop_last() =~= pv.take(j as int));
            assert(pv.take(j + 1).last() == pv[j as int]);
        }
        if str_eq(pairs[j].1.as_str(), url) {
            let ghost oprev = out@;
            out.push(pairs[j].0.clone());
            proof {
                reveal(Seq::filter);
                assert(pv.take(j + 1).filter(pred) =~= pv.take(j as int).filter(pred).push(
                    pv[j as int],
                ));
                oprev.lemma_push_map_commute(|s: String| s@, out@[out@.len() - 1]);
                pv.take(j as int).filter(pred).lemma_push_map_commute(kf, pv[j as int]);
                assert(str_views(out@) =~= pv.take(j + 1).filter(pred).map_values(kf));
            }
        } else {
            proof {
                reveal(Seq::filter);
                assert(pv.take(j + 1).filter(pred) =~= pv.take(j as int).filter(pred));
                assert(str_views(out@) =~= pv.take(j + 1).filter(pred).map_values(kf));
            }
        }
        j = j + 1;
    }
    proof {
        assert(pv.take(n as int) =~= pv);
    }
    out
}

/// One table row for a URL and the (sorted) keys that point at it.
fn render_group_row(pairs: &Vec<(String, String)>, url: &str) -> (r: String)
    ensures
        r@ == group_row(assoc_views(pairs@), url@),
{
    let ghost pv = assoc_views(pairs@);
    let raw = keys_of_url(pairs, url);
    let keys = sort_strings(&raw);
    let ghost ks = keys_for(pv, url@);
    proof {
        assert(str_views(keys@) == ks);
    }
    let ghost lf = |k: Seq<char>| key_link(k);
    let mut links = String::new();
    let m = keys.len();
    let mut j: usize = 0;
    while j < m
        invariant
            m == keys@.len(),
            ks == str_views(keys@),
            lf == (|k: Seq<char>| key_link(k)),
            0 <= j <= m,
            links@ == joined(ks.take(j as int), lf, " , "@),
        decreases m - j,
    {
        if j > 0 {
            links.append(" , ");
        }
        links.append("<span style='white-space: nowrap;'><a href=\"/");
        links.append(html_escape(keys[j].as_str()).as_str());
        links.append("\">");
        links.append(html_escape(keys[j].as_str()).as_str());
        links.append("</a>");
        links.append("\n                    <form action=\"/delete_shortcut\" method=\"POST\" style=\"display:inline; margin-left: 5px;\" onsubmit=\"return confirm('Are you sure you want to delete shortcut: ");
        links.append(html_escape(keys[j].as_str()).as_str());
        links.append("?');\">\n                        <input type=\"hidden\" name=\"key\" value=\"");
        links.append(html_escape(keys[j].as_str()).as_str());
        links.append("\">\n                        <button type=\"submit\" class=\"delete-button\" title=\"Delete ");
        links.append(html_escape(keys[j].as_str()).as_str());
        links.append("\" style=\"background: none; border: none; color: #ff6347; padding: 0; cursor: pointer; margin: 0; font-size: 10px; line-height: 1;\">X</button>\n                    </form>\n                    ");
        links.append("</span>");
        proof {
            assert(ks[j as int] == keys@[j as int]@);
            lemma_joined_snoc(ks, lf, " , "@, j as int);
            assert(links@ =~= joined(ks.take(j + 1), lf, " , "@));
        }
        j = j + 1;
    }
    let mut row = "<tr><td class=\"keys\">".to_owned();
    row.append(links.as_str());
    row.append("</td><td class=\"url\">");
    row.append(html_escape(url).as_str());
    row.append("</td></tr>");
    proof {
        assert(ks.take(m as int) =~= ks);
        assert(row@ =~= group_row(pv, url@));
    }
    row
}

/// The rows of the table, grouped by URL and sorted.
fn render_grouped_rows(pairs: &Vec<(String, String)>) -> (r: String)
    ensures
        r@ == shortcut_rows(assoc_views(pairs@)),
{
    let ghost pv = assoc_views(pairs@);
    let n = pairs.len();
    let mut urls: Vec<String> = Vec::new();
    let mut j: usize = 0;
    proof {
        assert(str_views(urls@) =~= urls_of(pv.take(0)));
    }
    while j < n
        invariant
            n == pairs@.len(),
            pv == assoc_views(pairs@),
            0 <= j <= n,
            str_views(urls@) == urls_of(pv.take(j as int)),
        decreases n - j,
    {
        let ghost uprev = urls@;
        urls.push(pairs[j].1.clone());
        proof {
            assert(pv[j as int] == (pairs@[j as int].0@, pairs@[j as int].1@));
            assert(pv.take(j + 1) =~= pv.take(j as int).push(pv[j as int]));
            uprev.lemma_push_map_commute(|s: String| s@, urls@[urls@.len() - 1]);
            pv.take(j as int).lemma_push_map_commute(
                |p: (Seq<char>, Seq<char>)| p.1,
                pv[j as int],
            );
            assert(str_views(urls@) =~= urls_of(pv.take(j + 1)));
        }
        j = j + 1;
    }
    proof {
        assert(pv.take(n as int) =~= pv);
    }
    let sorted = sort_strings(&urls);
    let unique = dedup_sorted_exec(&sorted);
    let ghost gv = group_urls(pv);
    proof {
        assert(str_views(unique@) == gv);
    }
    let ghost rf = |u: Seq<char>| group_row(pv, u);
    let mut rows = String::new();
    let m = unique.len();
    let mut i: usize = 0;
    proof {
        assert(rows@ =~= cat_map(gv.take(0), rf));
    }
    while i < m
        invariant
            m == unique@.len(),
            pv == assoc_views(pairs@),
            gv == str_views(unique@),
            gv == group_urls(pv),
            rf == (|u: Seq<char>| group_row(pv, u)),
            0 <= i <= m,
            rows@ == cat_map(gv.take(i as int), rf),
        decreases m - i,
    {
        let row = render_group_row(pairs, unique[i].as_str());
        rows.append(row.as_str());
        proof {
            assert(gv[i as int] == unique@[i as int]@);
            lemma_cat_map_snoc(gv, rf, i as int);
            assert(rows@ =~= cat_map(gv.take(i + 1), rf));
        }
        i = i + 1;
    }
    proof {
        assert(gv.take(m as int) =~= gv);
    }
    rows
}

/// Renders the HTML table of shortcuts (reused by the home and 404
/// pages): one row per destination URL in alphabetical order, with each
/// row's keys sorted and carrying inline delete buttons.
pub fn render_shortcuts_table(pairs: &Vec<(String, String)>) -> (r: String)
    ensures
        r@ == shortcuts_table_seq(assoc_views(pairs@)),
{
    let rows = render_grouped_rows(pairs);
    let mut s = "\n    <table class=\"grid\">\n      <thead>\n        <tr><th>Shortcut Keys</th><th>Destination URL</th></tr>\n      </thead>\n      <tbody>\n        ".to_owned();
    s.append(rows.as_str());
    s.append("\n      </tbody>\n    </table>\n    ");
    proof {
        assert(s@ =~= shortcuts_table_seq(assoc_views(pairs@)));
    }
    s
}

/// The 404 page: the standard page shell with the add-shortcut button in
/// the navigation bar, the table of available shortcuts, and the
/// add-shortcut dialog before the closing body tag.
pub open spec fn not_found_seq(pairs: Seq<(Seq<char>, Seq<char>)>, theme: Theme) -> Seq<char> {
    "<!DOCTYPE html>\n<html>\n  <head>\n    <meta charset=\"utf-8\">\n    <title>"@ + "Shortcut Not Found"@ + "</title>\n    "@ + theme_vars_seq(theme) + " <!-- Inject theme variables -->\n    <link rel=\"stylesheet\" href=\"/static/style.css\">\n  </head>\n  <body>\n    "@ + ("\n    <div class=\"tools\">\n      <div class=\"tool-buttons\">\n        <a href=\"/\"><button class=\"nav-button\">Home (Shortcuts)</button></a>\n        <a href=\"/sql\"><button class=\"nav-button\">SQL Manager</button></a>\n        <a href=\"/note\"><button class=\"nav-button\">Notes</button></a>\n        <a href=\"/calculator\"><button class=\"nav-button\">Calculator</button></a>\n        <a href=\"/paint\"><button class=\"nav-button\">Paint</button></a> <!-- NEW: Paint Button -->\n      </div>\n      <div class=\"right-buttons\">\n        "@
        + add_button_seq() + "\n        <a href=\"/settings\"><button class=\"nav-button\">Settings</button></a> \n      </div>\n    </div>\n    "@) + "\n    "@ + ("\n    <h1>404 \u{2013} Shortcut Not Found</h1>\n    <p>The requested shortcut was not found. Here are your available shortcuts:</p>\n    "@ + shortcuts_table_seq(pairs) + "\n    "@)
        + "\n  "@ + modal_seq() + "</body>\n</html>"@
}

/// Render the 404 page with the available shortcuts.
pub fn not_found_page(pairs: &Vec<(String, String)>, current_theme: &Theme) -> (r: String)
    ensures
        r@ == not_found_seq(assoc_views(pairs@), *current_theme),
{
    let table = render_shortcuts_table(pairs);
    let mut s = "<!DOCTYPE html>\n<html>\n  <head>\n    <meta charset=\"utf-8\">\n    <title>".to_owned();
    s.append("Shortcut Not Found");
    s.append("</title>\n    ");
    s.append(crate::pages::render_theme_variables(current_theme).as_str());
    s.append(" <!-- Inject theme variables -->\n    <link rel=\"stylesheet\" href=\"/static/style.css\">\n  </head>\n  <body>\n    ");
    s.append("\n    <div class=\"tools\">\n      <div class=\"tool-buttons\">\n        <a href=\"/\"><button class=\"nav-button\">Home (Shortcuts)</button></a>\n        <a href=\"/sql\"><button class=\"nav-button\">SQL Manager</button></a>\n        <a href=\"/note\"><button class=\"nav-button\">Notes</button></a>\n        <a href=\"/calculator\"><button class=\"nav-button\">Calculator</button></a>\n        <a href=\"/paint\"><button class=\"nav-button\">Paint</button></a> <!-- NEW: Paint Button -->\n      </div>\n      <div class=\"right-buttons\">\n        ");
    s.append(crate::pages::render_add_shortcut_button().as_str());
    s.append("\n        <a href=\"/settings\"><button class=\"nav-button\">Settings</button></a> \n      </div>\n    </div>\n    ");
    s.append("\n    ");
    s.append("\n    <h1>404 \u{2013} Shortcut Not Found</h1>\n    <p>The requested shortcut was not found. Here are your available shortcuts:</p>\n    ");
    s.append(table.as_str());
    s.append("\n    ");
    s.append("\n  ");
    s.append(crate::pages::render_add_shortcut_modal().as_str());
    s.append("</body>\n</html>");
    proof {
        assert(s@ =~= not_found_seq(assoc_views(pairs@), *current_theme));
    }
    s
}

} // verus!
