use vstd::prelude::*;

use crate::decoder::RawCell;
use crate::decoder::decode_cell;
use crate::decoder::decode_spec;
use crate::strorder::sort_strings;
use crate::strorder::str_leq;
use crate::strorder::str_views;
use crate::strutil::str_eq;
use crate::csvio::csv_encoding;
use crate::csvio::csv_write_record;
use crate::csvio::csv_writer_finish;
use crate::csvio::csv_writer_new;
use crate::csvio::csv_written;

verus! {

/// One column of a fetched row: its name and everything the driver could
/// say about its value.
pub struct RawColumn {
    pub name: String,
    pub cell: RawCell,
}

/// An ordered table of display strings: column names in query order
/// (duplicates permitted), and rows aligned with them.
pub struct ResultSet {
    pub headers: Vec<String>,
    pub rows: Vec<Vec<String>>,
}

/// The deep view of fetched rows.
pub open spec fn raw_rows_view(rows: Seq<Vec<RawColumn>>) -> Seq<Seq<RawColumn>> {
    rows.map_values(|r: Vec<RawColumn>| r@)
}

/// Headers are the column names of the first row, in positional order, or
/// empty when no row came back.
pub open spec fn headers_spec(rows: Seq<Seq<RawColumn>>) -> Seq<Seq<char>> {
    if rows.len() == 0 {
        Seq::empty()
    } else {
        rows[0].map_values(|c: RawColumn| c.name@)
    }
}

/// One row decoded to display strings, in column order.
pub open spec fn decoded_row(row: Seq<RawColumn>) -> Seq<Seq<char>> {
    row.map_values(|c: RawColumn| decode_spec(c.cell@))
}

/// The view of a name-to-value association list.
pub open spec fn assoc_views(s: Seq<(String, String)>) -> Seq<(Seq<char>, Seq<char>)> {
    s.map_values(|p: (String, String)| (p.0@, p.1@))
}

/// Index of the first entry with the given key, or -1.
pub open spec fn assoc_idx(m: Seq<(Seq<char>, Seq<char>)>, k: Seq<char>) -> int
    decreases m.len(),
{
    if m.len() == 0 {
        -1
    } else if m[0].0 == k {
        0
    } else {
        let rest = assoc_idx(m.drop_first(), k);
        if rest == -1 {
            -1
        } else {
            rest + 1
        }
    }
}

/// The value stored under a key, or the empty string when the key is
/// absent (the exporter's fill for missing columns).
pub open spec fn assoc_get(m: Seq<(Seq<char>, Seq<char>)>, k: Seq<char>) -> Seq<char> {
    if assoc_idx(m, k) == -1 {
        Seq::empty()
    } else {
        m[assoc_idx(m, k)].1
    }
}

/// Store a value under a key as a hash map would: replace the value of
/// the entry already holding the key, else append a new entry.
pub open spec fn assoc_put(
    m: Seq<(Seq<char>, Seq<char>)>,
    k: Seq<char>,
    v: Seq<char>,
) -> Seq<(Seq<char>, Seq<char>)> {
    if assoc_idx(m, k) == -1 {
        m.push((k, v))
    } else {
        m.update(assoc_idx(m, k), (k, v))
    }
}

/// The name-keyed image of one row, built by storing each column in
/// order; a later column with the same name overwrites an earlier one.
pub open spec fn export_row(row: Seq<RawColumn>) -> Seq<(Seq<char>, Seq<char>)>
    decreases row.len(),
{
    if row.len() == 0 {
        Seq::empty()
    } else {
        assoc_put(
            export_row(row.drop_last()),
            row.last().name@,
            decode_spec(row.last().cell@),
        )
    }
}

/// The keys of an association list, in storage order.
pub open spec fn assoc_keys(m: Seq<(Seq<char>, Seq<char>)>) -> Seq<Seq<char>> {
    m.map_values(|p: (Seq<char>, Seq<char>)| p.0)
}

pub broadcast proof fn lemma_assoc_idx_bounds(m: Seq<(Seq<char>, Seq<char>)>, k: Seq<char>)
    ensures
        -1 <= #[trigger] assoc_idx(m, k) < m.len(),
        assoc_idx(m, k) >= 0 ==> m[assoc_idx(m, k)].0 == k,
        assoc_idx(m, k) >= 0 ==> forall|j: int| 0 <= j < assoc_idx(m, k) ==> m[j].0 != k,
        assoc_idx(m, k) == -1 ==> forall|j: int| 0 <= j < m.len() ==> m[j].0 != k,
    decreases m.len(),
{
    if m.len() > 0 && m[0].0 != k {
        let rest = m.drop_first();
        lemma_assoc_idx_bounds(rest, k);
        assert forall|j: int| 1 <= j < m.len() implies m[j] == rest[j - 1] by {}
        assert(assoc_idx(m, k) == if assoc_idx(rest, k) == -1 {
            -1int
        } else {
            assoc_idx(rest, k) + 1
        });
        if assoc_idx(rest, k) >= 0 {
            assert forall|j: int| 0 <= j < assoc_idx(m, k) implies m[j].0 != k by {
                if j >= 1 {
                    assert(m[j] == rest[j - 1]);
                }
            }
        } else {
            assert forall|j: int| 0 <= j < m.len() implies m[j].0 != k by {
                if j >= 1 {
                    assert(m[j] == rest[j - 1]);
                }
            }
        }
    }
}

/// If no entry before position `i` holds the key, the search on the whole
/// list is the search on the part from `i` on, shifted by `i`.
proof fn lemma_assoc_idx_skip(m: Seq<(Seq<char>, Seq<char>)>, k: Seq<char>, i: int)
    requires
        0 <= i <= m.len(),
        forall|j: int| 0 <= j < i ==> m[j].0 != k,
    ensures
        assoc_idx(m, k) == if assoc_idx(m.skip(i), k) == -1 {
            -1int
        } else {
            assoc_idx(m.skip(i), k) + i
        },
    decreases i,
{
    if i == 0 {
        assert(m.skip(0) =~= m);
    } else {
        let rest = m.drop_first();
        assert(m.len() > 0);
        assert(m[0].0 != k);
        assert forall|j: int| 0 <= j < i - 1 implies rest[j].0 != k by {
            assert(rest[j] == m[j + 1]);
        }
        lemma_assoc_idx_skip(rest, k, i - 1);
        assert(rest.skip(i - 1) =~= m.skip(i));
        assert(assoc_idx(m, k) == if assoc_idx(rest, k) == -1 {
            -1int
        } else {
            assoc_idx(rest, k) + 1
        });
        lemma_assoc_idx_bounds(m.skip(i), k);
        let fr = assoc_idx(rest, k);
        let fs = assoc_idx(m.skip(i), k);
        assert(assoc_idx(rest.skip(i - 1), k) == fs);
        if fs == -1 {
            assert(fr == -1);
        } else {
            assert(fr == fs + (i - 1));
        }
    }
}

/// Store a decoded value under a column name in an association list,
/// as a hash map insert would.
fn assoc_put_exec(m: &mut Vec<(String, String)>, k: String, v: String)
    ensures
        assoc_views(final(m)@) == assoc_put(assoc_views(old(m)@), k@, v@),
{
    proof {
        broadcast use lemma_assoc_idx_bounds;
    }
    let ghost s = assoc_views(m@);
    let n = m.len();
    let mut i: usize = 0;
    while i < n
        invariant
            n == m@.len(),
            m@ == old(m)@,
            s == assoc_views(m@),
            0 <= i <= n,
            forall|j: int| 0 <= j < i ==> s[j].0 != k@,
        decreases n - i,
    {
        assert(s[i as int] == (m@[i as int].0@, m@[i as int].1@));
        if str_eq(m[i].0.as_str(), k.as_str()) {
            proof {
                lemma_assoc_idx_skip(s, k@, i as int);
                assert(s.skip(i as int)[0] == s[i as int]);
                assert(assoc_idx(s.skip(i as int), k@) == 0);
                assert(assoc_idx(s, k@) == i as int);
            }
            m.set(i, (k, v));
            proof {
                assert(assoc_views(m@) =~= s.update(i as int, (k@, v@)));
            }
            return;
        }
        i = i + 1;
    }
    proof {
        lemma_assoc_idx_skip(s, k@, n as int);
    }
    m.push((k, v));
    proof {
        assert(assoc_views(m@) =~= s.push((k@, v@)));
    }
}

/// Look a column name up in a cached row; missing names give the empty
/// string.
fn assoc_get_exec(m: &Vec<(String, String)>, k: &str) -> (r: String)
    ensures
        r@ == assoc_get(assoc_views(m@), k@),
{
    proof {
        broadcast use lemma_assoc_idx_bounds;
    }
    let ghost s = assoc_views(m@);
    let n = m.len();
    let mut i: usize = 0;
    while i < n
        invariant
            n == m@.len(),
            s == assoc_views(m@),
            0 <= i <= n,
            forall|j: int| 0 <= j < i ==> s[j].0 != k@,
        decreases n - i,
    {
        assert(s[i as int] == (m@[i as int].0@, m@[i as int].1@));
        if str_eq(m[i].0.as_str(), k) {
            proof {
                lemma_assoc_idx_skip(s, k@, i as int);
                assert(s.skip(i as int)[0] == s[i as int]);
            }
            return m[i].1.clone();
        }
        i = i + 1;
    }
    proof {
        lemma_assoc_idx_skip(s, k@, n as int);
    }
    String::new()
}

/// Decode the fetched rows into the ordered table for display and the
/// name-keyed rows for the export cache.
pub fn process_rows(rows: &Vec<Vec<RawColumn>>) -> (r: (ResultSet, Vec<Vec<(String, String)>>))
    ensures
        str_views(r.0.headers@) == headers_spec(raw_rows_view(rows@)),
        r.0.rows@.map_values(|v: Vec<String>| str_views(v@)) == raw_rows_view(rows@).map_values(
            |row: Seq<RawColumn>| decoded_row(row),
        ),
        r.1@.map_values(|v: Vec<(String, String)>| assoc_views(v@)) == raw_rows_view(
            rows@,
        ).map_values(|row: Seq<RawColumn>| export_row(row)),
{
    let mut headers: Vec<String> = Vec::new();
    if rows.len() > 0 {
        let first = &rows[0];
        let m = first.len();
        let mut j: usize = 0;
        while j < m
            invariant
                m == first@.len(),
                0 <= j <= m,
                headers@.len() == j,
                str_views(headers@) == first@.take(j as int).map_values(|c: RawColumn| c.name@),
            decreases m - j,
        {
            let ghost hprev = headers@;
            headers.push(first[j].name.clone());
            proof {
                let cl = |c: RawColumn| c.name@;
                let sv = |s: String| s@;
                assert(first@.take(j + 1) =~= first@.take(j as int).push(first@[j as int]));
                hprev.lemma_push_map_commute(sv, headers@[j as int]);
                first@.take(j as int).lemma_push_map_commute(cl, first@[j as int]);
                assert(str_views(headers@) == first@.take(j + 1).map_values(cl));
            }
            j = j + 1;
        }
        proof {
            assert(first@.take(m as int) =~= first@);
        }
    }
    let n = rows.len();
    let mut data_rows: Vec<Vec<String>> = Vec::new();
    let mut export_rows: Vec<Vec<(String, String)>> = Vec::new();
    let mut i: usize = 0;
    while i < n
        invariant
            n == rows@.len(),
            0 <= i <= n,
            data_rows@.len() == i,
            export_rows@.len() == i,
            data_rows@.map_values(|v: Vec<String>| str_views(v@)) == raw_rows_view(
                rows@.take(i as int),
            ).map_values(|row: Seq<RawColumn>| decoded_row(row)),
            export_rows@.map_values(|v: Vec<(String, String)>| assoc_views(v@)) == raw_rows_view(
                rows@.take(i as int),
            ).map_values(|row: Seq<RawColumn>| export_row(row)),
        decreases n - i,
    {
        let row = &rows[i];
        let m = row.len();
        let mut ordered: Vec<String> = Vec::new();
        let mut keyed: Vec<(String, String)> = Vec::new();
        let mut j: usize = 0;
        while j < m
            invariant
                m == row@.len(),
                0 <= j <= m,
                ordered@.len() == j,
                str_views(ordered@) == decoded_row(row@.take(j as int)),
                assoc_views(keyed@) == export_row(row@.take(j as int)),
            decreases m - j,
        {
            let val = decode_cell(&row[j].cell);
            let ghost oprev = ordered@;
            ordered.push(val.clone());
            assoc_put_exec(&mut keyed, row[j].name.clone(), val);
            proof {
                let dc = |c: RawColumn| decode_spec(c.cell@);
                let sv = |s: String| s@;
                assert(row@.take(j + 1) =~= row@.take(j as int).push(row@[j as int]));
                assert(row@.take(j + 1).drop_last() =~= row@.take(j as int));
                assert(row@.take(j + 1).last() == row@[j as int]);
                oprev.lemma_push_map_commute(sv, ordered@[j as int]);
                row@.take(j as int).lemma_push_map_commute(dc, row@[j as int]);
                assert(ordered@[j as int]@ == decode_spec(row@[j as int].cell@));
                assert(str_views(ordered@) == decoded_row(row@.take(j + 1)));
                assert(assoc_views(keyed@) =~= export_row(row@.take(j + 1)));
            }
            j = j + 1;
        }
        proof {
            assert(row@.take(m as int) =~= row@);
        }
        let ghost dprev = data_rows@;
        let ghost eprev = export_rows@;
        data_rows.push(ordered);
        export_rows.push(keyed);
        proof {
            assert(rows@.take(i + 1) =~= rows@.take(i as int).push(rows@[i as int]));
            let dl = data_rows@.map_values(|v: Vec<String>| str_views(v@));
            let dr = raw_rows_view(rows@.take(i + 1)).map_values(
                |row2: Seq<RawColumn>| decoded_row(row2),
            );
            assert(forall|k: int| 0 <= k < dl.len() ==> dl[k] == str_views(data_rows@[k]@));
            assert(forall|k: int|
                0 <= k < i + 1 ==> #[trigger] raw_rows_view(rows@.take(i + 1))[k] == rows@.take(
                    i + 1,
                )[k]@);
            assert(forall|k: int| 0 <= k < dr.len() ==> dr[k] == decoded_row(
                raw_rows_view(rows@.take(i + 1))[k],
            ));
            assert(forall|k: int| 0 <= k < i ==> data_rows@[k] == dprev[k]);
            assert(forall|k: int|
                0 <= k < i ==> dprev.map_values(|v: Vec<String>| str_views(v@))[k] == str_views(
                    dprev[k]@,
                ));
            assert(forall|k: int|
                0 <= k < i ==> #[trigger] raw_rows_view(rows@.take(i as int))[k] == rows@.take(
                    i as int,
                )[k]@);
            assert(forall|k: int|
                0 <= k < i ==> raw_rows_view(rows@.take(i as int)).map_values(
                    |row2: Seq<RawColumn>| decoded_row(row2),
                )[k] == decoded_row(raw_rows_view(rows@.take(i as int))[k]));
            assert(dl =~= dr);
            let el = export_rows@.map_values(|v: Vec<(String, String)>| assoc_views(v@));
            let er = raw_rows_view(rows@.take(i + 1)).map_values(
                |row2: Seq<RawColumn>| export_row(row2),
            );
            assert(forall|k: int| 0 <= k < el.len() ==> el[k] == assoc_views(export_rows@[k]@));
            assert(forall|k: int| 0 <= k < er.len() ==> er[k] == export_row(
                raw_rows_view(rows@.take(i + 1))[k],
            ));
            assert(forall|k: int| 0 <= k < i ==> export_rows@[k] == eprev[k]);
            assert(forall|k: int|
                0 <= k < i ==> eprev.map_values(|v: Vec<(String, String)>| assoc_views(v@))[k]
                    == assoc_views(eprev[k]@));
            assert(forall|k: int|
                0 <= k < i ==> raw_rows_view(rows@.take(i as int)).map_values(
                    |row2: Seq<RawColumn>| export_row(row2),
                )[k] == export_row(raw_rows_view(rows@.take(i as int))[k]));
            assert(el =~= er);
        }
        i = i + 1;
    }
    proof {
        assert(rows@.take(n as int) =~= rows@);
    }
    (ResultSet { headers, rows: data_rows }, export_rows)
}

/// The deep view of the export cache.
pub open spec fn cache_view(cache: Seq<Vec<(String, String)>>) -> Seq<Seq<(Seq<char>, Seq<char>)>> {
    cache.map_values(|v: Vec<(String, String)>| assoc_views(v@))
}

/// The export's header row: the first cached row's column names in
/// lexicographic order.
pub open spec fn export_headers(cache: Seq<Seq<(Seq<char>, Seq<char>)>>) -> Seq<Seq<char>> {
    assoc_keys(cache[0]).sort_by(str_leq())
}

/// The records the exporter writes: the sorted header row, then one
/// record per cached row with each header looked up in it (missing names
/// become empty fields); no records at all when the cache is empty.
pub open spec fn export_records(cache: Seq<Seq<(Seq<char>, Seq<char>)>>) -> Seq<Seq<Seq<char>>> {
    if cache.len() == 0 {
        Seq::empty()
    } else {
        let hdrs = export_headers(cache);
        seq![hdrs] + cache.map_values(
            |row: Seq<(Seq<char>, Seq<char>)>| hdrs.map_values(|h: Seq<char>| assoc_get(row, h)),
        )
    }
}

/// Serialize the cached rows as CSV: alphabetical header row from the
/// first cached row's names, one record per row, empty output for an
/// empty cache.
pub fn export_csv(cache: &Vec<Vec<(String, String)>>) -> (r: String)
    ensures
        r@ == csv_encoding(export_records(cache_view(cache@))),
        cache@.len() == 0 ==> r@.len() == 0,
{
    let mut w = csv_writer_new();
    if cache.len() == 0 {
        proof {
            assert(export_records(cache_view(cache@)) =~= Seq::<Seq<Seq<char>>>::empty());
        }
        return csv_writer_finish(w);
    }
    let ghost cv = cache_view(cache@);
    let first = &cache[0];
    let m = first.len();
    let mut keys: Vec<String> = Vec::new();
    let mut j: usize = 0;
    while j < m
        invariant
            m == first@.len(),
            0 <= j <= m,
            str_views(keys@) == assoc_keys(assoc_views(first@.take(j as int))),
        decreases m - j,
    {
        let ghost kprev = keys@;
        keys.push(first[j].0.clone());
        proof {
            let sv = |s: String| s@;
            let pv = |p: (String, String)| (p.0@, p.1@);
            let kf = |p: (Seq<char>, Seq<char>)| p.0;
            assert(first@.take(j + 1) =~= first@.take(j as int).push(first@[j as int]));
            kprev.lemma_push_map_commute(sv, keys@[j as int]);
            first@.take(j as int).lemma_push_map_commute(pv, first@[j as int]);
            assoc_views(first@.take(j as int)).lemma_push_map_commute(
                kf,
                pv(first@[j as int]),
            );
            assert(assoc_views(first@.take(j + 1)) == assoc_views(first@.take(j as int)).push(
                pv(first@[j as int]),
            ));
            assert(str_views(keys@) == assoc_keys(assoc_views(first@.take(j + 1))));
        }
        j = j + 1;
    }
    proof {
        assert(first@.take(m as int) =~= first@);
        assert(cache_view(cache@)[0] == assoc_views(cache@[0]@));
    }
    let hdrs = sort_strings(&keys);
    let ghost hv = export_headers(cv);
    proof {
        assert(str_views(hdrs@) == hv);
    }
    csv_write_record(&mut w, &hdrs);
    let ghost target = cv.map_values(
        |row: Seq<(Seq<char>, Seq<char>)>| hv.map_values(|h: Seq<char>| assoc_get(row, h)),
    );
    let hn = hdrs.len();
    proof {
        assert(hn == hv.len());
    }
    let n = cache.len();
    let mut i: usize = 0;
    while i < n
        invariant
            n == cache@.len(),
            cv == cache_view(cache@),
            hv == export_headers(cv),
            target == cv.map_values(
                |row: Seq<(Seq<char>, Seq<char>)>| hv.map_values(
                    |h: Seq<char>| assoc_get(row, h),
                ),
            ),
            hn == hdrs@.len(),
            hn == hv.len(),
            str_views(hdrs@) == hv,
            0 <= i <= n,
            csv_written(w) == seq![hv] + target.take(i as int),
        decreases n - i,
    {
        let row = &cache[i];
        let mut rec: Vec<String> = Vec::new();
        let mut k: usize = 0;
        while k < hn
            invariant
                hn == hdrs@.len(),
                str_views(hdrs@) == hv,
                hn == hv.len(),
                n == cache@.len(),
                cv == cache_view(cache@),
                i < n,
                row == &cache[i as int],
                0 <= k <= hn,
                str_views(rec@) == hv.take(k as int).map_values(
                    |h: Seq<char>| assoc_get(assoc_views(row@), h),
                ),
            decreases hn - k,
        {
            let ghost rprev = rec@;
            rec.push(assoc_get_exec(row, hdrs[k].as_str()));
            proof {
                let sv = |s: String| s@;
                let gf = |h: Seq<char>| assoc_get(assoc_views(row@), h);
                assert(hv.take(k + 1) =~= hv.take(k as int).push(hv[k as int]));
                assert(hdrs@[k as int]@ == hv[k as int]);
                rprev.lemma_push_map_commute(sv, rec@[k as int]);
                hv.take(k as int).lemma_push_map_commute(gf, hv[k as int]);
                assert(rec@[k as int]@ == gf(hv[k as int]));
                assert(str_views(rec@) == hv.take(k + 1).map_values(gf));
            }
            k = k + 1;
        }
        proof {
            assert(hv.take(hn as int) =~= hv);
        }
        csv_write_record(&mut w, &rec);
        proof {
            let gf = |h: Seq<char>| assoc_get(assoc_views(row@), h);
            assert(cv[i as int] == assoc_views(cache@[i as int]@));
            assert(target[i as int] == hv.map_values(
                |h: Seq<char>| assoc_get(cv[i as int], h),
            ));
            assert(hv.map_values(gf) =~= target[i as int]) by {
                assert(forall|k2: int|
                    0 <= k2 < hv.len() ==> hv.map_values(gf)[k2] == gf(hv[k2]));
                assert(forall|k2: int|
                    0 <= k2 < hv.len() ==> hv.map_values(
                        |h: Seq<char>| assoc_get(cv[i as int], h),
                    )[k2] == assoc_get(cv[i as int], hv[k2]));
            }
            assert(target.take(i + 1) =~= target.take(i as int).push(target[i as int]));
            assert(csv_written(w) =~= seq![hv] + target.take(i + 1));
        }
        i = i + 1;
    }
    proof {
        assert(target.take(n as int) =~= target);
        assert(seq![hv] + target =~= export_records(cv));
    }
    csv_writer_finish(w)
}

/// The exported header row depends only on which names the first cached
/// row holds, not on the order they were stored in: rows carrying the
/// same names, however arranged, give the same header row.
pub proof fn lemma_export_header_order(
    r1: Seq<(Seq<char>, Seq<char>)>,
    r2: Seq<(Seq<char>, Seq<char>)>,
)
    requires
        assoc_keys(r1).to_multiset() == assoc_keys(r2).to_multiset(),
    ensures
        assoc_keys(r1).sort_by(str_leq()) == assoc_keys(r2).sort_by(str_leq()),
{
    crate::strorder::lemma_str_leq_total_ordering();
    assoc_keys(r1).lemma_sort_by_ensures(str_leq());
    assoc_keys(r2).lemma_sort_by_ensures(str_leq());
    vstd::seq_lib::lemma_sorted_unique(
        assoc_keys(r1).sort_by(str_leq()),
        assoc_keys(r2).sort_by(str_leq()),
        str_leq(),
    );
}

} // verus!
