use vstd::prelude::*;

use crate::numfmt::int_pad;
use crate::numfmt::i64_pad;
use crate::strutil::push_char;
use vstd::arithmetic::div_mod::lemma_fundamental_div_mod_converse;

verus! {

/// Proleptic-Gregorian civil year of the given day count since the Unix
/// epoch, computed by eras of 400 years (146097 days).  All divisions are
/// mathematical floor divisions.
pub open spec fn civil_year(z: int) -> int {
    let days = z + 719468;
    let era = days / 146097;
    let doe = days - era * 146097;
    let yoe = (doe - doe / 1460 + doe / 36524 - doe / 146096) / 365;
    let y = yoe + era * 400;
    let mp = civil_mp(z);
    if mp < 10 {
        y
    } else {
        y + 1
    }
}

/// Day of the March-based year for the given day count since the Unix epoch.
pub open spec fn civil_doy(z: int) -> int {
    let days = z + 719468;
    let era = days / 146097;
    let doe = days - era * 146097;
    let yoe = (doe - doe / 1460 + doe / 36524 - doe / 146096) / 365;
    doe - (365 * yoe + yoe / 4 - yoe / 100)
}

/// March-based month index (0 = March) for the given day count.
pub open spec fn civil_mp(z: int) -> int {
    (5 * civil_doy(z) + 2) / 153
}

/// Civil month of the given day count since the Unix epoch.
pub open spec fn civil_month(z: int) -> int {
    let mp = civil_mp(z);
    if mp < 10 {
        mp + 3
    } else {
        mp - 9
    }
}

/// Civil day of month of the given day count since the Unix epoch.
pub open spec fn civil_day(z: int) -> int {
    let doy = civil_doy(z);
    let mp = civil_mp(z);
    doy - (153 * mp + 2) / 5 + 1
}

/// The date portion, `YYYY-MM-DD`, for a day count since the Unix epoch.
pub open spec fn date_seq(z: int) -> Seq<char> {
    int_pad(civil_year(z), 4) + seq!['-'] + int_pad(civil_month(z), 2) + seq!['-'] + int_pad(
        civil_day(z),
        2,
    )
}

/// The full display form, `YYYY-MM-DD HH:MM:SS`, of a count of seconds
/// since the Unix epoch, using floor division so that seconds before the
/// epoch fall on the correct earlier day.
pub open spec fn ts_seq(secs: int) -> Seq<char> {
    let z = secs / 86400;
    let sod = secs % 86400;
    date_seq(z) + seq![' '] + int_pad(sod / 3600, 2) + seq![':'] + int_pad((sod % 3600) / 60, 2)
        + seq![':'] + int_pad(sod % 60, 2)
}

/// Floor division and remainder of a signed value by a positive divisor,
/// computed through unsigned machine division.
fn euclid_div(a: i64, b: u64) -> (qr: (i64, u64))
    requires
        2 <= b,
    ensures
        qr.0 as int == a as int / b as int,
        qr.1 as int == a as int % b as int,
        a as int == qr.0 * b + qr.1,
        0 <= qr.1 < b,
{
    if a >= 0 {
        let au = a as u64;
        let q = au / b;
        let r = au % b;
        proof {
            vstd::arithmetic::div_mod::lemma_div_nonincreasing(au as int, b as int);
            vstd::arithmetic::div_mod::lemma_fundamental_div_mod(au as int, b as int);
            assert(au as int == (b as int) * (au as int / b as int) + (au as int % b as int));
            assert((b as int) * (q as int) == (q as int) * (b as int));
        }
        ((q as i64), r)
    } else {
        let m: u64 = if a == i64::MIN {
            9223372036854775808u64
        } else {
            (-a) as u64
        };
        let qm = m / b;
        let rm = m % b;
        proof {
            vstd::arithmetic::div_mod::lemma_fundamental_div_mod(m as int, b as int);
            assert(m as int == (b as int) * (m as int / b as int) + (m as int % b as int));
            assert((b as int) * (qm as int) == (qm as int) * (b as int));
            assert(qm * b + rm == m);
            assert(qm * 2 <= qm * b) by (nonlinear_arith)
                requires
                    qm >= 0,
                    b >= 2,
            ;
            assert(qm <= 0x4000000000000000);
            assert((-(qm as int)) * (b as int) == -((qm as int) * (b as int))) by (nonlinear_arith);
            assert((-(qm as int) - 1) * (b as int) == -((qm as int) * (b as int)) - (b as int))
                by (nonlinear_arith);
        }
        if rm == 0 {
            proof {
                lemma_fundamental_div_mod_converse(a as int, b as int, -(qm as int), 0);
            }
            (-(qm as i64), 0)
        } else {
            proof {
                lemma_fundamental_div_mod_converse(
                    a as int,
                    b as int,
                    -(qm as int) - 1,
                    (b - rm) as int,
                );
            }
            (-(qm as i64) - 1, b - rm)
        }
    }
}

/// The civil date of a day count since the Unix epoch, as (year, month, day).
fn civil_from_days(z: i64) -> (ymd: (i64, i64, i64))
    requires
        -200000000000000 <= z <= 200000000000000,
    ensures
        ymd.0 as int == civil_year(z as int),
        ymd.1 as int == civil_month(z as int),
        ymd.2 as int == civil_day(z as int),
{
    let days = z + 719468;
    let (era, doe_u) = euclid_div(days, 146097);
    let doe = doe_u as i64;
    let (d1460, _r1) = euclid_div(doe, 1460);
    let (d36524, _r2) = euclid_div(doe, 36524);
    let (d146096, _r3) = euclid_div(doe, 146096);
    let (yoe, _r4) = euclid_div(doe - d1460 + d36524 - d146096, 365);
    let y = yoe + era * 400;
    let (yoe4, _r5) = euclid_div(yoe, 4);
    let (yoe100, _r6) = euclid_div(yoe, 100);
    let doy = doe - (365 * yoe + yoe4 - yoe100);
    let (mp, _r7) = euclid_div(5 * doy + 2, 153);
    let (dd, _r8) = euclid_div(153 * mp + 2, 5);
    let d = doy - dd + 1;
    let (mo, yr) = if mp < 10 {
        (mp + 3, y)
    } else {
        (mp - 9, y + 1)
    };
    (yr, mo, d)
}

/// Format a count of seconds since the Unix epoch as `YYYY-MM-DD HH:MM:SS`
/// on the proleptic Gregorian calendar.
pub fn format_ts(seconds: i64) -> (r: String)
    ensures
        r@ == ts_seq(seconds as int),
{
    let (z, sod) = euclid_div(seconds, 86400);
    let mut s = format_date(z);
    push_char(&mut s, ' ');
    let h = sod / 3600;
    let mi = (sod % 3600) / 60;
    let sec = sod % 60;
    s.append(i64_pad(h as i64, 2).as_str());
    push_char(&mut s, ':');
    s.append(i64_pad(mi as i64, 2).as_str());
    push_char(&mut s, ':');
    s.append(i64_pad(sec as i64, 2).as_str());
    proof {
        assert(s@ =~= ts_seq(seconds as int));
    }
    s
}

/// Format a day count since the Unix epoch as `YYYY-MM-DD`.
pub fn format_date(z: i64) -> (r: String)
    requires
        -200000000000000 <= z <= 200000000000000,
    ensures
        r@ == date_seq(z as int),
{
    let (yr, mo, d) = civil_from_days(z);
    let mut s = i64_pad(yr, 4);
    push_char(&mut s, '-');
    s.append(i64_pad(mo, 2).as_str());
    push_char(&mut s, '-');
    s.append(i64_pad(d, 2).as_str());
    proof {
        assert(s@ =~= date_seq(z as int));
    }
    s
}

/// The day count of a civil date: the inverse closed form, counting days
/// from the Unix epoch for a proleptic-Gregorian year, month and day.
pub open spec fn days_from_civil(y: int, m: int, d: int) -> int {
    let yy = if m <= 2 {
        y - 1
    } else {
        y
    };
    let era = yy / 400;
    let yoe = yy - era * 400;
    let mp = if m > 2 {
        m - 3
    } else {
        m + 9
    };
    let doy = (153 * mp + 2) / 5 + d - 1;
    let doe = yoe * 365 + yoe / 4 - yoe / 100 + doy;
    era * 146097 + doe - 719468
}

/// The civil date computed for any day count is a real date (month 1 to
/// 12, day 1 to 31), and converting it back gives the same day count: the
/// calendar conversion inverts exactly, for every day of the proleptic
/// Gregorian calendar.
pub proof fn lemma_civil_round_trip(z: int)
    ensures
        1 <= civil_month(z) <= 12,
        1 <= civil_day(z) <= 31,
        days_from_civil(civil_year(z), civil_month(z), civil_day(z)) == z,
{
    let days = z + 719468;
    let era = days / 146097;
    let doe = days - era * 146097;
    vstd::arithmetic::div_mod::lemma_fundamental_div_mod(days, 146097);
    vstd::arithmetic::div_mod::lemma_mod_bound(days, 146097);
    assert(doe == days % 146097);
    assert(0 <= doe < 146097);
    let yoe = (doe - doe / 1460 + doe / 36524 - doe / 146096) / 365;
    let doy = doe - (365 * yoe + yoe / 4 - yoe / 100);
    assert(0 <= yoe <= 399 && 0 <= doy <= 365) by (nonlinear_arith)
        requires
            0 <= doe <= 146096,
            yoe == (doe - doe / 1460 + doe / 36524 - doe / 146096) / 365,
            doy == doe - (365 * yoe + yoe / 4 - yoe / 100),
    ;
    let mp = (5 * doy + 2) / 153;
    let d = doy - (153 * mp + 2) / 5 + 1;
    assert(0 <= mp <= 11 && 1 <= d <= 31 && (153 * mp + 2) / 5 + d - 1 == doy) by (
    nonlinear_arith)
        requires
            0 <= doy <= 365,
            mp == (5 * doy + 2) / 153,
            d == doy - (153 * mp + 2) / 5 + 1,
    ;
    let y = yoe + era * 400;
    let mo = civil_month(z);
    let yr = civil_year(z);
    assert(civil_doy(z) == doy);
    assert(civil_mp(z) == mp);
    assert(civil_day(z) == d);
    if mp < 10 {
        assert(mo == mp + 3);
        assert(yr == y);
        assert(3 <= mo <= 12);
    } else {
        assert(mo == mp - 9);
        assert(yr == y + 1);
        assert(1 <= mo <= 2);
    }
    let yy = if mo <= 2 {
        yr - 1
    } else {
        yr
    };
    assert(yy == y);
    let era2 = yy / 400;
    assert(era2 == era) by (nonlinear_arith)
        requires
            yy == yoe + era * 400,
            0 <= yoe <= 399,
            era2 == yy / 400,
    ;
    let yoe2 = yy - era2 * 400;
    assert(yoe2 == yoe);
    let mp2 = if mo > 2 {
        mo - 3
    } else {
        mo + 9
    };
    assert(mp2 == mp);
    let doy2 = (153 * mp2 + 2) / 5 + d - 1;
    assert(doy2 == doy);
    let doe2 = yoe2 * 365 + yoe2 / 4 - yoe2 / 100 + doy2;
    assert(doe2 == doe) by (nonlinear_arith)
        requires
            doe2 == yoe2 * 365 + yoe2 / 4 - yoe2 / 100 + doy2,
            doy2 == doe - (365 * yoe2 + yoe2 / 4 - yoe2 / 100),
    ;
    assert(days_from_civil(yr, mo, d) == era * 146097 + doe - 719468);
    assert(era * 146097 + doe - 719468 == z);
}

} // verus!
