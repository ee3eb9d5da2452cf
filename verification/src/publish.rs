//! Releases and their names: when a release id is taken, and which releases
//! retention removes. Creating directories and swapping the `current` link
//! with `rename(2)` is the service's part.

use vstd::prelude::*;
use crate::order::{lemma_total_ordering, sort_strings, str_lt, str_order};
use crate::paths::{components, components_exec, join, join_path, views};
use crate::text::{
    chars_eq, chars_of, decimal, digit_char, lemma_decimal_len, padded, padded_chars, push_all, push_string, strs,
    string_from_chars,
};

verus! {

/// The year of a day of an era, counted from March 1st of the era's first
/// year (Howard Hinnant's `civil_from_days`).
pub open spec fn year_of_era(doe: int) -> int {
    (doe - doe / 1460 + doe / 36524 - doe / 146096) / 365
}

/// The day of the year, counted from March 1st.
pub open spec fn day_of_year(doe: int) -> int {
    let yoe = year_of_era(doe);
    doe - (365 * yoe + yoe / 4 - yoe / 100)
}

#[verifier::spinoff_prover]
#[verifier::rlimit(50)]
proof fn lemma_era_day(doe: int)
    requires
        0 <= doe < 146097,
    ensures
        0 <= year_of_era(doe) < 400,
        0 <= day_of_year(doe) <= 365,
        day_of_year(doe) == 365 ==> (year_of_era(doe) + 1) % 4 == 0 && ((year_of_era(doe) + 1) % 100 != 0 || year_of_era(doe) == 399),
{
}

/// Leap years of the proleptic Gregorian calendar.
pub open spec fn is_leap_year(y: int) -> bool {
    y % 4 == 0 && (y % 100 != 0 || y % 400 == 0)
}

pub open spec fn days_in_month(y: int, m: int) -> int {
    if m == 2 {
        if is_leap_year(y) { 29 } else { 28 }
    } else if m == 4 || m == 6 || m == 9 || m == 11 {
        30
    } else {
        31
    }
}

pub open spec fn valid_date(y: int, m: int, d: int) -> bool {
    1 <= m <= 12 && 1 <= d <= days_in_month(y, m)
}

/// The number of days from 1970-01-01 to a date: whole years counted from
/// March (so that the leap day ends a year), with their leap days, then the
/// days of the months since March.
pub open spec fn days_from_civil(y: int, m: int, d: int) -> int {
    let yy = if m <= 2 { y - 1 } else { y };
    let mp = if m > 2 { m - 3 } else { m + 9 };
    365 * yy + yy / 4 - yy / 100 + yy / 400 + (153 * mp + 2) / 5 + d - 1 - 719468
}

/// Whether `t` (year, month, day, hour, minute, second) is the UTC time
/// `secs` seconds after the Unix epoch.
pub open spec fn is_civil_time(secs: int, t: (i64, u32, u32, u32, u32, u32)) -> bool {
    &&& valid_date(t.0 as int, t.1 as int, t.2 as int)
    &&& t.3 < 24 && t.4 < 60 && t.5 < 60
    &&& days_from_civil(t.0 as int, t.1 as int, t.2 as int) * 86400 + t.3 * 3600 + t.4 * 60 + t.5 == secs
}

/// The month of a day of a March-based year, counted from March as 0.
pub open spec fn month_index(doy: int) -> int {
    (5 * doy + 2) / 153
}

/// The day of the month of a day of a March-based year.
pub open spec fn day_of_month(doy: int) -> int {
    doy - (153 * month_index(doy) + 2) / 5 + 1
}

/// The calendar month of a March-based month index.
pub open spec fn month_of(mp: int) -> int {
    if mp < 10 { mp + 3 } else { mp - 9 }
}

proof fn lemma_month(doy: int)
    requires
        0 <= doy <= 365,
    ensures
        0 <= month_index(doy) <= 11,
        1 <= day_of_month(doy),
        (153 * month_index(doy) + 2) / 5 + day_of_month(doy) - 1 == doy,
        month_index(doy) < 11 ==> day_of_month(doy) <= days_in_month(0, month_of(month_index(doy))),
        month_index(doy) == 11 ==> day_of_month(doy) <= 28 || (doy == 365 && day_of_month(doy) == 29),
{
}

proof fn lemma_year_days(era: int, yoe: int)
    requires
        0 <= yoe < 400,
    ensures
        ({
            let yy = yoe + 400 * era;
            365 * yy + yy / 4 - yy / 100 + yy / 400 == 146097 * era + 365 * yoe + yoe / 4 - yoe / 100
        }),
{
    let yy = yoe + 400 * era;
    assert(yy / 4 == yoe / 4 + 100 * era);
    assert(yy / 100 == yoe / 100 + 4 * era);
    assert(yy / 400 == era);
}

proof fn lemma_leap(era: int, yoe: int)
    requires
        0 <= yoe < 400,
        (yoe + 1) % 4 == 0,
        (yoe + 1) % 100 != 0 || yoe == 399,
    ensures
        is_leap_year(yoe + 1 + 400 * era),
{
    let y = yoe + 1 + 400 * era;
    assert(y % 4 == (yoe + 1) % 4);
    assert(y % 100 == (yoe + 1) % 100);
    assert(yoe == 399 ==> y % 400 == 0);
}

/// The civil date of day `doe` of era `era`.
pub open spec fn civil_of(era: int, doe: int) -> (int, int, int) {
    let yoe = year_of_era(doe);
    let doy = day_of_year(doe);
    let m = month_of(month_index(doy));
    (yoe + era * 400 + (if m <= 2 { 1int } else { 0int }), m, day_of_month(doy))
}

proof fn lemma_civil_of(era: int, doe: int)
    requires
        0 <= doe < 146097,
    ensures
        valid_date(civil_of(era, doe).0, civil_of(era, doe).1, civil_of(era, doe).2),
        days_from_civil(civil_of(era, doe).0, civil_of(era, doe).1, civil_of(era, doe).2) == era * 146097 + doe - 719468,
{
    lemma_era_day(doe);
    let yoe = year_of_era(doe);
    let doy = day_of_year(doe);
    lemma_month(doy);
    lemma_year_days(era, yoe);
    let mp = month_index(doy);
    let (y, m, d) = civil_of(era, doe);
    if mp == 11 && doy == 365 {
        lemma_leap(era, yoe);
    }
    assert(days_in_month(y, m) == days_in_month(0, m) || m == 2);
}

/// The civil date and time of a Unix timestamp (Howard Hinnant's
/// days-to-civil algorithm), so that no date crate is needed for the one
/// place a timestamp is formatted.
#[verifier::spinoff_prover]
#[verifier::rlimit(40)]
pub fn civil_from_unix(secs: i64) -> (res: (i64, u32, u32, u32, u32, u32))
    ensures
        is_civil_time(secs as int, res),
{
    let days = secs.checked_div_euclid(86_400).unwrap();
    let rem = secs.checked_rem_euclid(86_400).unwrap();
    let z = days + 719_468;
    let era = z.checked_div_euclid(146_097).unwrap();
    let doe = z.checked_rem_euclid(146_097).unwrap();
    proof {
        lemma_era_day(doe as int);
        lemma_month(day_of_year(doe as int));
        lemma_civil_of(era as int, doe as int);
    }
    let yoe = (doe - doe / 1460 + doe / 36_524 - doe / 146_096) / 365;
    assert(yoe == year_of_era(doe as int));
    let y = yoe + era * 400;
    let doy = doe - (365 * yoe + yoe / 4 - yoe / 100);
    assert(doy == day_of_year(doe as int));
    let mp = (5 * doy + 2) / 153;
    assert(mp == month_index(doy as int));
    let d = (doy - (153 * mp + 2) / 5 + 1) as u32;
    let m = (if mp < 10 { mp + 3 } else { mp - 9 }) as u32;
    let y = if m <= 2 { y + 1 } else { y };
    assert((y as int, m as int, d as int) == civil_of(era as int, doe as int));
    (y, m, d, (rem / 3600) as u32, ((rem % 3600) / 60) as u32, (rem % 60) as u32)
}

// ---------------------------------------------------------------------------
// Release ids

/// A signed number in decimal, zero-padded after the sign to `width`
/// characters in all (`format!("{n:0width$}")`).
pub open spec fn padded_int(n: int, width: nat) -> Seq<char> {
    if n < 0 {
        seq!['-'] + padded((-n) as nat, if width > 0 { (width - 1) as nat } else { 0 })
    } else {
        padded(n as nat, width)
    }
}

fn padded_int_chars(n: i64, width: usize) -> (res: Vec<char>)
    requires
        width > 0,
    ensures
        res@ == padded_int(n as int, width as nat),
{
    if n < 0 {
        let m: u64 = if n == i64::MIN {
            9223372036854775808u64
        } else {
            (-n) as u64
        };
        let mut out: Vec<char> = Vec::new();
        out.push('-');
        let digits = padded_chars(m, width - 1);
        push_all(&mut out, &digits);
        assert(out@ =~= seq!['-'] + padded((-n) as nat, (width - 1) as nat));
        out
    } else {
        padded_chars(n as u64, width)
    }
}

/// The id of a release made at civil time `t`: `YYYYMMDDTHHMMSSZ`.
pub open spec fn release_id_text(t: (i64, u32, u32, u32, u32, u32)) -> Seq<char> {
    padded_int(t.0 as int, 4) + (padded(t.1 as nat, 2) + (padded(t.2 as nat, 2) + (seq!['T'] + (
    padded(t.3 as nat, 2) + (padded(t.4 as nat, 2) + (padded(t.5 as nat, 2) + seq!['Z']))))))
}

/// The id of a release made `secs` seconds after the Unix epoch. Release ids
/// sort lexicographically in chronological order, which is what retention
/// relies on.
pub fn release_id_at(secs: i64) -> (res: String)
    ensures
        res@ == release_id_text(civil_time(secs as int)),
{
    let t = civil_from_unix(secs);
    proof {
        lemma_civil_time(secs as int, t);
    }
    let (y, mo, d, h, mi, s) = t;
    let mut tail: Vec<char> = Vec::new();
    tail.push('Z');
    let tail = prepend(padded_chars(s as u64, 2), tail);
    let tail = prepend(padded_chars(mi as u64, 2), tail);
    let tail = prepend(padded_chars(h as u64, 2), tail);
    let mut t_sep: Vec<char> = Vec::new();
    t_sep.push('T');
    let tail = prepend(t_sep, tail);
    let tail = prepend(padded_chars(d as u64, 2), tail);
    let tail = prepend(padded_chars(mo as u64, 2), tail);
    let id = prepend(padded_int_chars(y, 4), tail);
    string_from_chars(&id)
}

/// `head` followed by `tail`.
fn prepend(head: Vec<char>, tail: Vec<char>) -> (res: Vec<char>)
    ensures
        res@ == head@ + tail@,
{
    let mut out = head;
    push_all(&mut out, &tail);
    out
}

/// `std::time::SystemTime`, carried through as an opaque value.
#[verifier::external_type_specification]
#[verifier::external_body]
pub struct ExSystemTime(std::time::SystemTime);

/// The whole seconds from the Unix epoch to the instant `t`, or `None` where
/// `t` lies before the epoch: what `t.duration_since(UNIX_EPOCH)` gives,
/// through `Duration::as_secs`. It depends on the value `t` alone; only the
/// call that produced `t` reads a clock.
pub uninterp spec fn seconds_since_epoch(t: std::time::SystemTime) -> Option<u64>;

/// `SystemTime::duration_since(UNIX_EPOCH)` in whole seconds
/// (`Duration::as_secs`), or `None` where `now` lies before the epoch (the
/// call's error).
#[verifier::external_body]
fn unix_seconds(now: std::time::SystemTime) -> (res: Option<u64>)
    ensures
        res == seconds_since_epoch(now),
{
    match now.duration_since(std::time::UNIX_EPOCH) {
        Ok(d) => Some(d.as_secs()),
        Err(_) => None,
    }
}

/// The seconds a release id is made from: those since the epoch, taken as a
/// signed number, and zero for a clock before the epoch.
pub open spec fn id_seconds(since_epoch: Option<u64>) -> int {
    match since_epoch {
        Some(s) => (s as i64) as int,
        None => 0,
    }
}

/// The id of a release made `since_epoch` seconds after the Unix epoch, as the
/// clock reports them; a clock before the epoch gives the epoch's id.
pub fn release_id_since_epoch(since_epoch: Option<u64>) -> (res: String)
    ensures
        res@ == release_id_text(civil_time(id_seconds(since_epoch))),
{
    let secs: i64 = match since_epoch {
        Some(s) => s as i64,
        None => 0,
    };
    release_id_at(secs)
}

/// The id of a release made at `now`.
pub fn new_release_id(now: std::time::SystemTime) -> (res: String)
    ensures
        res@ == release_id_text(civil_time(id_seconds(seconds_since_epoch(now)))),
{
    let since_epoch = unix_seconds(now);
    release_id_since_epoch(since_epoch)
}

// ---------------------------------------------------------------------------
// Layout of the publish root

/// `root/releases`: one directory per release.
pub fn releases_dir(root: &str) -> (res: String)
    ensures
        res@ == join(root@, "releases"@),
{
    join_path(root, "releases")
}

/// `root/current`: the symlink the web server serves.
pub fn current_link(root: &str) -> (res: String)
    ensures
        res@ == join(root@, "current"@),
{
    join_path(root, "current")
}

/// The id of the release shown before the first build completes; it sorts
/// before every real release id.
pub fn bootstrap_release_id() -> (res: String)
    ensures
        res@ == "00000000T000000Z-bootstrap"@,
{
    crate::text::owned("00000000T000000Z-bootstrap")
}

// ---------------------------------------------------------------------------
// Retention

/// Whether the release `id` in `dir` is the one `current` points at (paths
/// compare by their components, as `Path`s do).
pub open spec fn is_served(dir: Seq<char>, id: Seq<char>, current: Option<Seq<char>>) -> bool {
    current matches Some(c) && components(join(dir, id)) == components(c)
}

/// The ids of `ids` that are not served, in order.
pub open spec fn unserved(dir: Seq<char>, ids: Seq<Seq<char>>, current: Option<Seq<char>>) -> Seq<Seq<char>>
    decreases ids.len(),
{
    if ids.len() == 0 {
        seq![]
    } else {
        let rest = unserved(dir, ids.drop_last(), current);
        if is_served(dir, ids.last(), current) {
            rest
        } else {
            rest.push(ids.last())
        }
    }
}

/// The number of the oldest releases beyond the newest `keep` (at least one
/// is always kept).
pub open spec fn excess(n: nat, keep: nat) -> nat {
    let k = if keep == 0 { 1 } else { keep };
    if n > k { (n - k) as nat } else { 0 }
}

/// What retention removes: the releases beyond the newest `keep`, oldest
/// first, except the one being served, however old it is.
pub open spec fn retention_removes(dir: Seq<char>, ids: Seq<Seq<char>>, keep: nat, current: Option<Seq<char>>) -> Seq<Seq<char>> {
    let sorted = ids.sort_by(str_order());
    unserved(dir, sorted.take(excess(sorted.len(), keep) as int), current)
}

fn same_parts(a: &Vec<Vec<char>>, b: &Vec<Vec<char>>) -> (res: bool)
    ensures
        res == (views(a@) == views(b@)),
{
    if a.len() != b.len() {
        assert(views(a@).len() != views(b@).len());
        return false;
    }
    let mut i: usize = 0;
    while i < a.len()
        invariant
            i <= a@.len(),
            a@.len() == b@.len(),
            forall|j: int| 0 <= j < i ==> a@[j]@ == b@[j]@,
        decreases a@.len() - i,
    {
        if !chars_eq(&a[i], &b[i]) {
            assert(views(a@)[i as int] != views(b@)[i as int]);
            return false;
        }
        i = i + 1;
    }
    assert(views(a@) =~= views(b@));
    true
}

/// The releases to remove so that the newest `keep` remain. Retention has to
/// be enforced actively: a full root filesystem takes the Nextcloud on the
/// same host down with it. `ids` are the release directories found in `dir`,
/// `current` the release the `current` link resolves to, if any.
pub fn retention_plan(dir: &str, ids: &Vec<String>, keep: usize, current: Option<&str>) -> (res: Vec<String>)
    ensures
        strs(res@) == retention_removes(dir@, strs(ids@), keep as nat, match current {
            Some(c) => Some(c@),
            None => None,
        }),
{
    let ghost cur = match current {
        Some(c) => Some(c@),
        None => None::<Seq<char>>,
    };
    let sorted = sort_strings(ids);
    let ghost sv = strs(sorted@);
    let k: usize = if keep == 0 { 1 } else { keep };
    let n: usize = if sorted.len() > k { sorted.len() - k } else { 0 };
    assert(n == excess(sv.len(), keep as nat));
    let current_parts = match current {
        Some(c) => Some(components_exec(&chars_of(c))),
        None => None,
    };
    let mut out: Vec<String> = Vec::new();
    let mut i: usize = 0;
    assert(sv.take(0) =~= Seq::<Seq<char>>::empty());
    while i < n
        invariant
            i <= n <= sorted@.len(),
            sv == strs(sorted@),
            match current_parts {
                Some(p) => cur matches Some(c) && views(p@) == components(c),
                None => cur is None,
            },
            strs(out@) == unserved(dir@, sv.take(i as int), cur),
        decreases n - i,
    {
        assert(sv.take(i + 1).drop_last() =~= sv.take(i as int));
        assert(sv.take(i + 1).last() == sorted@[i as int]@);
        let path = join_path(dir, sorted[i].as_str());
        let served = match &current_parts {
            Some(p) => same_parts(&components_exec(&chars_of(path.as_str())), p),
            None => false,
        };
        if !served {
            push_string(&mut out, sorted[i].clone());
        }
        i = i + 1;
    }
    out
}

proof fn lemma_unserved(dir: Seq<char>, ids: Seq<Seq<char>>, current: Option<Seq<char>>)
    ensures
        forall|i: int| 0 <= i < unserved(dir, ids, current).len() ==> ids.contains(#[trigger] unserved(dir, ids, current)[i])
            && !is_served(dir, unserved(dir, ids, current)[i], current),
    decreases ids.len(),
{
    if ids.len() > 0 {
        lemma_unserved(dir, ids.drop_last(), current);
        let rest = unserved(dir, ids.drop_last(), current);
        assert forall|i: int| 0 <= i < unserved(dir, ids, current).len() implies ids.contains(#[trigger] unserved(dir, ids, current)[i])
            && !is_served(dir, unserved(dir, ids, current)[i], current) by {
            if i < rest.len() {
                let k = choose|k: int| 0 <= k < ids.drop_last().len() && ids.drop_last()[k] == rest[i];
                assert(ids[k] == rest[i]);
            } else {
                assert(ids[ids.len() - 1] == ids.last());
            }
        }
    }
}

/// Retention never removes the release being served, however old it is, and
/// removes only releases among the oldest beyond the newest `keep`.
pub proof fn lemma_retention_spares_served(dir: Seq<char>, ids: Seq<Seq<char>>, keep: nat, current: Option<Seq<char>>)
    ensures
        forall|i: int| 0 <= i < retention_removes(dir, ids, keep, current).len() ==> {
            let r = #[trigger] retention_removes(dir, ids, keep, current)[i];
            let sorted = ids.sort_by(str_order());
            &&& !is_served(dir, r, current)
            &&& sorted.take(excess(sorted.len(), keep) as int).contains(r)
        },
{
    let sorted = ids.sort_by(str_order());
    lemma_unserved(dir, sorted.take(excess(sorted.len(), keep) as int), current);
}

/// With distinct ids, the newest `max(keep, 1)` releases are never removed.
pub proof fn lemma_retention_keeps_newest(dir: Seq<char>, ids: Seq<Seq<char>>, keep: nat, current: Option<Seq<char>>)
    requires
        ids.no_duplicates(),
    ensures
        ({
            let sorted = ids.sort_by(str_order());
            forall|j: int| excess(sorted.len(), keep) <= j < sorted.len()
                ==> !retention_removes(dir, ids, keep, current).contains(#[trigger] sorted[j])
        }),
{
    let sorted = ids.sort_by(str_order());
    let n = excess(sorted.len(), keep) as int;
    lemma_total_ordering();
    ids.lemma_sort_by_ensures(str_order());
    ids.lemma_multiset_has_no_duplicates();
    sorted.lemma_multiset_has_no_duplicates_conv();
    lemma_retention_spares_served(dir, ids, keep, current);
    let removes = retention_removes(dir, ids, keep, current);
    assert forall|j: int| n <= j < sorted.len() implies !removes.contains(#[trigger] sorted[j]) by {
        if removes.contains(sorted[j]) {
            let i = choose|i: int| 0 <= i < removes.len() && removes[i] == sorted[j];
            assert(sorted.take(n).contains(removes[i]));
            let a = choose|a: int| 0 <= a < sorted.take(n).len() && sorted.take(n)[a] == removes[i];
            assert(sorted[a] == sorted[j]);
        }
    }
}

// ---------------------------------------------------------------------------
// Release ids sort in chronological order

/// Days from the March-based year 0 to the start of March-based year `yy`.
pub open spec fn year_start(yy: int) -> int {
    365 * yy + yy / 4 - yy / 100 + yy / 400
}

#[verifier::spinoff_prover]
proof fn lemma_step_4(yy: int)
    ensures
        (yy + 1) / 4 - yy / 4 == if (yy + 1) % 4 == 0 { 1int } else { 0int },
{
}

#[verifier::spinoff_prover]
proof fn lemma_step_100(yy: int)
    ensures
        (yy + 1) / 100 - yy / 100 == if (yy + 1) % 100 == 0 { 1int } else { 0int },
{
}

#[verifier::spinoff_prover]
proof fn lemma_step_400(yy: int)
    ensures
        (yy + 1) / 400 - yy / 400 == if (yy + 1) % 400 == 0 { 1int } else { 0int },
{
}

#[verifier::spinoff_prover]
proof fn lemma_year_length(yy: int)
    ensures
        year_start(yy + 1) - year_start(yy) == 365 + if is_leap_year(yy + 1) { 1int } else { 0int },
{
    lemma_step_4(yy);
    lemma_step_100(yy);
    lemma_step_400(yy);
}

proof fn lemma_year_start_grows(a: int, b: int)
    requires
        a < b,
    ensures
        year_start(a + 1) <= year_start(b),
    decreases b - a,
{
    if a + 1 < b {
        lemma_year_start_grows(a, b - 1);
        lemma_year_length(b - 1);
    }
}

/// Days from March 1st to the first day of March-based month `mp`.
pub open spec fn month_start(mp: int) -> int {
    (153 * mp + 2) / 5
}

/// The March-based year and month of a calendar date.
pub open spec fn march_year(y: int, m: int) -> int {
    if m <= 2 { y - 1 } else { y }
}

pub open spec fn march_month(m: int) -> int {
    if m > 2 { m - 3 } else { m + 9 }
}

proof fn lemma_day_in_year(y: int, m: int, d: int)
    requires
        valid_date(y, m, d),
    ensures
        0 <= month_start(march_month(m)) + d - 1,
        month_start(march_month(m)) + d - 1 < year_start(march_year(y, m) + 1) - year_start(march_year(y, m)),
        days_from_civil(y, m, d) == year_start(march_year(y, m)) + month_start(march_month(m)) + d - 1 - 719468,
{
    lemma_year_length(march_year(y, m));
}

proof fn lemma_month_order(m1: int, d1: int, m2: int, d2: int, y: int)
    requires
        valid_date(y, m1, d1),
        valid_date(y, m2, d2),
        march_month(m1) < march_month(m2),
    ensures
        month_start(march_month(m1)) + d1 < month_start(march_month(m2)) + d2,
{
}

/// Calendar dates in order: year, then month, then day.
pub open spec fn date_before(a: (int, int, int), b: (int, int, int)) -> bool {
    a.0 < b.0 || (a.0 == b.0 && (a.1 < b.1 || (a.1 == b.1 && a.2 < b.2)))
}

/// A later valid date is a later day.
pub proof fn lemma_days_increase(a: (int, int, int), b: (int, int, int))
    requires
        valid_date(a.0, a.1, a.2),
        valid_date(b.0, b.1, b.2),
        date_before(a, b),
    ensures
        days_from_civil(a.0, a.1, a.2) < days_from_civil(b.0, b.1, b.2),
{
    lemma_day_in_year(a.0, a.1, a.2);
    lemma_day_in_year(b.0, b.1, b.2);
    let ya = march_year(a.0, a.1);
    let yb = march_year(b.0, b.1);
    if ya < yb {
        lemma_year_start_grows(ya, yb);
    } else if ya == yb {
        if march_month(a.1) < march_month(b.1) {
            if march_year(a.0, a.1) == march_year(b.0, b.1) && (a.1 <= 2) == (b.1 <= 2) {
                lemma_month_order(a.1, a.2, b.1, b.2, a.0);
            } else {
                lemma_month_order(a.1, a.2, b.1, b.2 , b.0);
                assert(days_in_month(a.0, a.1) == days_in_month(b.0, a.1));
            }
        }
    }
}

/// Civil times in order: date, then hour, minute and second.
pub open spec fn time_before(a: (i64, u32, u32, u32, u32, u32), b: (i64, u32, u32, u32, u32, u32)) -> bool {
    ||| date_before((a.0 as int, a.1 as int, a.2 as int), (b.0 as int, b.1 as int, b.2 as int))
    ||| (a.0 == b.0 && a.1 == b.1 && a.2 == b.2 && (a.3 < b.3 || (a.3 == b.3 && (a.4 < b.4 || (
        a.4 == b.4 && a.5 < b.5)))))
}

/// The second a valid civil time denotes.
pub open spec fn civil_seconds(t: (i64, u32, u32, u32, u32, u32)) -> int {
    days_from_civil(t.0 as int, t.1 as int, t.2 as int) * 86400 + t.3 * 3600 + t.4 * 60 + t.5
}

proof fn lemma_later_time_later_second(a: (i64, u32, u32, u32, u32, u32), b: (i64, u32, u32, u32, u32, u32))
    requires
        is_civil_time(civil_seconds(a), a),
        is_civil_time(civil_seconds(b), b),
        time_before(a, b),
    ensures
        civil_seconds(a) < civil_seconds(b),
{
    let da = (a.0 as int, a.1 as int, a.2 as int);
    let db = (b.0 as int, b.1 as int, b.2 as int);
    if date_before(da, db) {
        lemma_days_increase(da, db);
    }
}

/// A second has exactly one civil time.
pub proof fn lemma_civil_time_unique(secs: int, a: (i64, u32, u32, u32, u32, u32), b: (i64, u32, u32, u32, u32, u32))
    requires
        is_civil_time(secs, a),
        is_civil_time(secs, b),
    ensures
        a == b,
{
    if time_before(a, b) {
        lemma_later_time_later_second(a, b);
    } else if time_before(b, a) {
        lemma_later_time_later_second(b, a);
    }
}

/// A later second has a later civil time.
pub proof fn lemma_civil_time_order(s1: int, s2: int, a: (i64, u32, u32, u32, u32, u32), b: (i64, u32, u32, u32, u32, u32))
    requires
        is_civil_time(s1, a),
        is_civil_time(s2, b),
        s1 < s2,
    ensures
        time_before(a, b),
{
    if time_before(b, a) {
        lemma_later_time_later_second(b, a);
    } else if a == b {
    }
}

/// The civil time of second `secs` after the Unix epoch.
pub open spec fn civil_time(secs: int) -> (i64, u32, u32, u32, u32, u32) {
    choose|t: (i64, u32, u32, u32, u32, u32)| is_civil_time(secs, t)
}

pub proof fn lemma_civil_time(secs: int, t: (i64, u32, u32, u32, u32, u32))
    requires
        is_civil_time(secs, t),
    ensures
        civil_time(secs) == t,
{
    lemma_civil_time_unique(secs, civil_time(secs), t);
}

/// A civil time for every second from the epoch to the end of year 9999;
/// such times have four-digit years.
proof fn lemma_civil_time_exists(secs: int)
    requires
        0 <= secs < 253402300800,
    ensures
        is_civil_time(secs, civil_time(secs)),
        1970 <= civil_time(secs).0 <= 9999,
{
    let days = secs / 86400;
    let rem = secs % 86400;
    let z = days + 719468;
    let era = z / 146097;
    let doe = z % 146097;
    lemma_civil_of(era, doe);
    let (y, m, d) = civil_of(era, doe);
    lemma_era_day(doe);
    let t = (y as i64, m as u32, d as u32, (rem / 3600) as u32, ((rem % 3600) / 60) as u32, (rem % 60) as u32);
    assert(is_civil_time(secs, t));
    lemma_civil_time(secs, t);
    if y < 1970 {
        lemma_days_increase((y, m, d), (1970, 1, 1));
    }
    if y > 9999 {
        if (y, m, d) != (10000int, 1int, 1int) {
            lemma_days_increase((10000, 1, 1), (y, m, d));
        }
    }
}

/// `a` and `b` agree before position `i` and `a` is smaller there.
pub open spec fn differs_first_at(a: Seq<char>, b: Seq<char>, i: int) -> bool {
    0 <= i < a.len() && i < b.len() && a.take(i) == b.take(i) && (a[i] as u32) < (b[i] as u32)
}

proof fn lemma_differs_lt(a: Seq<char>, b: Seq<char>, i: int)
    requires
        differs_first_at(a, b, i),
    ensures
        str_lt(a, b),
    decreases i,
{
    if i > 0 {
        assert(a[0] == a.take(i)[0] && b[0] == b.take(i)[0]);
        assert(a.drop_first().take(i - 1) =~= a.take(i).drop_first());
        assert(b.drop_first().take(i - 1) =~= b.take(i).drop_first());
        lemma_differs_lt(a.drop_first(), b.drop_first(), i - 1);
    }
    assert(a[i] != b[i]);
}

proof fn lemma_differs_before(a1: Seq<char>, a2: Seq<char>, b1: Seq<char>, b2: Seq<char>, i: int)
    requires
        differs_first_at(a1, a2, i),
    ensures
        differs_first_at(a1 + b1, a2 + b2, i),
{
    assert((a1 + b1).take(i) =~= a1.take(i));
    assert((a2 + b2).take(i) =~= a2.take(i));
}

proof fn lemma_differs_after(a: Seq<char>, b1: Seq<char>, b2: Seq<char>, i: int)
    requires
        differs_first_at(b1, b2, i),
    ensures
        differs_first_at(a + b1, a + b2, a.len() + i),
{
    assert((a + b1).take(a.len() + i) =~= a + b1.take(i));
    assert((a + b2).take(a.len() + i) =~= a + b2.take(i));
}

proof fn lemma_digit_order(a: nat, b: nat)
    requires
        a < b < 10,
    ensures
        (digit_char(a) as u32) < (digit_char(b) as u32),
{
}

proof fn lemma_padded_push(n: nat, w: nat)
    requires
        w >= 2,
        decimal(n).len() <= w,
    ensures
        padded(n, w) == padded(n / 10, (w - 1) as nat).push(digit_char(n % 10)),
        padded(n, w).len() == w,
        decimal(n / 10).len() <= w - 1,
{
    lemma_decimal_len(n);
    lemma_decimal_len(n / 10);
    if n < 10 {
        assert(decimal(0) =~= seq!['0']);
        assert(padded(n, w) =~= padded(n / 10, (w - 1) as nat).push(digit_char(n % 10)));
    } else {
        assert(padded(n, w) =~= padded(n / 10, (w - 1) as nat).push(digit_char(n % 10)));
    }
}

/// Zero-padded numbers of one width compare as the numbers do.
proof fn lemma_padded_order(a: nat, b: nat, w: nat) -> (i: int)
    requires
        w >= 1,
        a < b,
        decimal(a).len() <= w,
        decimal(b).len() <= w,
    ensures
        differs_first_at(padded(a, w), padded(b, w), i),
        padded(a, w).len() == w,
        padded(b, w).len() == w,
    decreases w,
{
    lemma_decimal_len(a);
    lemma_decimal_len(b);
    if w == 1 {
        assert(b < 10);
        lemma_digit_order(a, b);
        assert(padded(a, w) =~= seq![digit_char(a)]);
        assert(padded(b, w) =~= seq![digit_char(b)]);
        assert(padded(a, w).take(0) =~= padded(b, w).take(0));
        0
    } else {
        lemma_padded_push(a, w);
        lemma_padded_push(b, w);
        let pa = padded(a / 10, (w - 1) as nat);
        let pb = padded(b / 10, (w - 1) as nat);
        if a / 10 < b / 10 {
            let i = lemma_padded_order(a / 10, b / 10, (w - 1) as nat);
            assert(pa.push(digit_char(a % 10)).take(i) =~= pa.take(i));
            assert(pb.push(digit_char(b % 10)).take(i) =~= pb.take(i));
            i
        } else {
            assert(a / 10 == b / 10);
            lemma_digit_order(a % 10, b % 10);
            if w - 1 == 1 {
                lemma_decimal_len(a / 10);
            }
            assert(pa.len() == w - 1) by {
                lemma_decimal_len(a / 10);
            }
            assert(pa.push(digit_char(a % 10)).take(w - 1) =~= pa);
            assert(pb.push(digit_char(b % 10)).take(w - 1) =~= pb);
            (w - 1) as int
        }
    }
}

proof fn lemma_decimal_short(n: nat)
    ensures
        n < 100 ==> decimal(n).len() <= 2,
        n < 10000 ==> decimal(n).len() <= 4,
{
    lemma_decimal_len(n);
    lemma_decimal_len(n / 10);
    lemma_decimal_len(n / 100);
    lemma_decimal_len(n / 1000);
}

/// The pieces of a release id from the `k`-th on: 0 year, 1 month, 2 day,
/// 3 `T`, 4 hour, 5 minute, 6 second; `Z` closes.
spec fn id_from(t: (i64, u32, u32, u32, u32, u32), k: int) -> Seq<char>
    decreases 7 - k,
{
    if k >= 7 {
        seq!['Z']
    } else {
        let piece = if k == 0 {
            padded_int(t.0 as int, 4)
        } else if k == 1 {
            padded(t.1 as nat, 2)
        } else if k == 2 {
            padded(t.2 as nat, 2)
        } else if k == 3 {
            seq!['T']
        } else if k == 4 {
            padded(t.3 as nat, 2)
        } else if k == 5 {
            padded(t.4 as nat, 2)
        } else {
            padded(t.5 as nat, 2)
        };
        piece + id_from(t, k + 1)
    }
}

proof fn lemma_id_unfold(t: (i64, u32, u32, u32, u32, u32))
    ensures
        id_from(t, 7) == seq!['Z'],
        id_from(t, 6) == padded(t.5 as nat, 2) + id_from(t, 7),
        id_from(t, 5) == padded(t.4 as nat, 2) + id_from(t, 6),
        id_from(t, 4) == padded(t.3 as nat, 2) + id_from(t, 5),
        id_from(t, 3) == seq!['T'] + id_from(t, 4),
        id_from(t, 2) == padded(t.2 as nat, 2) + id_from(t, 3),
        id_from(t, 1) == padded(t.1 as nat, 2) + id_from(t, 2),
        id_from(t, 0) == padded_int(t.0 as int, 4) + id_from(t, 1),
{
}

#[verifier::spinoff_prover]
proof fn lemma_id_pieces(t: (i64, u32, u32, u32, u32, u32))
    ensures
        release_id_text(t) == id_from(t, 0),
{
    lemma_id_unfold(t);
}

/// Ids of one width: where two ids first differ in a piece, they differ at
/// that position of the whole id.
proof fn lemma_id_differs(a: (i64, u32, u32, u32, u32, u32), b: (i64, u32, u32, u32, u32, u32), k: int, pa: Seq<char>, pb: Seq<char>, i: int)
    requires
        0 <= k < 7,
        differs_first_at(pa, pb, i),
        id_from(a, k) == pa + id_from(a, k + 1),
        id_from(b, k) == pb + id_from(b, k + 1),
    ensures
        differs_first_at(id_from(a, k), id_from(b, k), i),
{
    lemma_differs_before(pa, pb, id_from(a, k + 1), id_from(b, k + 1), i);
}

proof fn lemma_id_same_piece(a: (i64, u32, u32, u32, u32, u32), b: (i64, u32, u32, u32, u32, u32), k: int, p: Seq<char>, i: int)
    requires
        0 <= k < 7,
        differs_first_at(id_from(a, k + 1), id_from(b, k + 1), i),
        id_from(a, k) == p + id_from(a, k + 1),
        id_from(b, k) == p + id_from(b, k + 1),
    ensures
        differs_first_at(id_from(a, k), id_from(b, k), p.len() + i),
{
    lemma_differs_after(p, id_from(a, k + 1), id_from(b, k + 1), i);
}

/// A later civil time of a four-digit year has a greater release id.
proof fn lemma_id_order(a: (i64, u32, u32, u32, u32, u32), b: (i64, u32, u32, u32, u32, u32))
    requires
        time_before(a, b),
        0 <= a.0 <= 9999,
        0 <= b.0 <= 9999,
        a.1 < 100 && a.2 < 100 && a.3 < 100 && a.4 < 100 && a.5 < 100,
        b.1 < 100 && b.2 < 100 && b.3 < 100 && b.4 < 100 && b.5 < 100,
    ensures
        str_lt(release_id_text(a), release_id_text(b)),
{
    lemma_id_pieces(a);
    lemma_id_pieces(b);
    lemma_decimal_short(a.0 as nat);
    lemma_decimal_short(b.0 as nat);
    lemma_decimal_short(a.1 as nat);
    lemma_decimal_short(b.1 as nat);
    lemma_decimal_short(a.2 as nat);
    lemma_decimal_short(b.2 as nat);
    lemma_decimal_short(a.3 as nat);
    lemma_decimal_short(b.3 as nat);
    lemma_decimal_short(a.4 as nat);
    lemma_decimal_short(b.4 as nat);
    lemma_decimal_short(a.5 as nat);
    lemma_decimal_short(b.5 as nat);
    lemma_id_unfold(a);
    lemma_id_unfold(b);
    if a.0 < b.0 {
        let i = lemma_padded_order(a.0 as nat, b.0 as nat, 4);
        lemma_id_differs(a, b, 0, padded(a.0 as nat, 4), padded(b.0 as nat, 4), i);
        lemma_differs_lt(id_from(a, 0), id_from(b, 0), i);
        return;
    }
    let y = padded(a.0 as nat, 4);
    let i1: int;
    if a.1 < b.1 {
        i1 = lemma_padded_order(a.1 as nat, b.1 as nat, 2);
        lemma_id_differs(a, b, 1, padded(a.1 as nat, 2), padded(b.1 as nat, 2), i1);
    } else {
        let m = padded(a.1 as nat, 2);
        let i2: int;
        if a.2 < b.2 {
            i2 = lemma_padded_order(a.2 as nat, b.2 as nat, 2);
            lemma_id_differs(a, b, 2, padded(a.2 as nat, 2), padded(b.2 as nat, 2), i2);
        } else {
            let d = padded(a.2 as nat, 2);
            let i4: int;
            if a.3 < b.3 {
                i4 = lemma_padded_order(a.3 as nat, b.3 as nat, 2);
                lemma_id_differs(a, b, 4, padded(a.3 as nat, 2), padded(b.3 as nat, 2), i4);
            } else {
                let h = padded(a.3 as nat, 2);
                let i5: int;
                if a.4 < b.4 {
                    i5 = lemma_padded_order(a.4 as nat, b.4 as nat, 2);
                    lemma_id_differs(a, b, 5, padded(a.4 as nat, 2), padded(b.4 as nat, 2), i5);
                } else {
                    let i6 = lemma_padded_order(a.5 as nat, b.5 as nat, 2);
                    lemma_id_differs(a, b, 6, padded(a.5 as nat, 2), padded(b.5 as nat, 2), i6);
                    lemma_id_same_piece(a, b, 5, padded(a.4 as nat, 2), i6);
                    i5 = 2 + i6;
                }
                lemma_id_same_piece(a, b, 4, h, i5);
                i4 = 2 + i5;
            }
            lemma_id_same_piece(a, b, 3, seq!['T'], i4);
            lemma_id_same_piece(a, b, 2, d, 1 + i4);
            i2 = 3 + i4;
        }
        lemma_id_same_piece(a, b, 1, m, i2);
        i1 = 2 + i2;
    }
    lemma_id_same_piece(a, b, 0, y, i1);
    lemma_differs_lt(id_from(a, 0), id_from(b, 0), 4 + i1);
}

/// The ids `new_release_id` gives sort as the instants they are made at: of
/// two instants after the epoch (and before year 10000), the one more whole
/// seconds after it gets the greater id; an instant before the epoch gets the
/// epoch's id.
pub proof fn lemma_new_release_ids_sort(t1: std::time::SystemTime, t2: std::time::SystemTime)
    ensures
        seconds_since_epoch(t1) is None ==> release_id_text(civil_time(id_seconds(seconds_since_epoch(t1))))
            == release_id_text(civil_time(0)),
        (seconds_since_epoch(t1) matches Some(a) && seconds_since_epoch(t2) matches Some(b) && a < b
            && b < 253402300800) ==> str_lt(
            release_id_text(civil_time(id_seconds(seconds_since_epoch(t1)))),
            release_id_text(civil_time(id_seconds(seconds_since_epoch(t2)))),
        ),
{
    if let (Some(a), Some(b)) = (seconds_since_epoch(t1), seconds_since_epoch(t2)) {
        if a < b && b < 253402300800 {
            assert(id_seconds(Some(a)) == a as int);
            assert(id_seconds(Some(b)) == b as int);
            lemma_release_ids_sort_chronologically(a as int, b as int);
        }
    }
}

/// Release ids sort lexicographically in chronological order: a release made
/// later has a greater id. This is what retention relies on. It holds from
/// the epoch to the end of year 9999; ids of other years are not four digits
/// long.
pub proof fn lemma_release_ids_sort_chronologically(s1: int, s2: int)
    requires
        0 <= s1 < s2 < 253402300800,
    ensures
        str_lt(release_id_text(civil_time(s1)), release_id_text(civil_time(s2))),
        release_id_text(civil_time(s1)).len() == 16,
{
    lemma_civil_time_exists(s1);
    lemma_civil_time_exists(s2);
    lemma_civil_time_order(s1, s2, civil_time(s1), civil_time(s2));
    lemma_id_order(civil_time(s1), civil_time(s2));
    let t = civil_time(s1);
    lemma_decimal_short(t.0 as nat);
    lemma_decimal_short(t.1 as nat);
    lemma_decimal_short(t.2 as nat);
    lemma_decimal_short(t.3 as nat);
    lemma_decimal_short(t.4 as nat);
    lemma_decimal_short(t.5 as nat);
    lemma_decimal_len(t.1 as nat);
    lemma_decimal_len(t.2 as nat);
    lemma_decimal_len(t.3 as nat);
    lemma_decimal_len(t.4 as nat);
    lemma_decimal_len(t.5 as nat);
    lemma_decimal_len(t.0 as nat);
}

} // verus!
