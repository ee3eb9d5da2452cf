//! The checks between build and publish.
//!
//! An exit code of 0 is not evidence that a build is good. The realistic
//! failure is a sync error that leaves the vault half-empty on the server: the
//! generator builds it happily and a three-page website replaces the blog.
//!
//! The service counts the pages of the new release, looks for the required
//! files and the duplicate basenames; [`evaluate`] decides.

use vstd::prelude::*;
use crate::config::Gate;
use crate::text::{
    decimal, decimal_chars, join_strings, join_with, push_all, push_str, push_string, strs,
    string_from_chars,
};

verus! {

#[derive(Debug, Clone)]
pub struct Verdict {
    pub violations: Vec<String>,
    pub warnings: Vec<String>,
    pub pages: usize,
}

impl Verdict {
    pub fn passed(&self) -> (res: bool)
        ensures
            res == (self.violations@.len() == 0),
    {
        self.violations.len() == 0
    }
}

/// `100 * num / den` rounded to the nearest integer, ties to even
/// (`format!("{:.0}")` of the percentage).
pub open spec fn rounded_percent(num: nat, den: nat) -> nat {
    let q = (100 * num) / den;
    let r = (100 * num) % den;
    if 2 * r > den {
        q + 1
    } else if 2 * r < den {
        q
    } else if q % 2 == 0 {
        q
    } else {
        q + 1
    }
}

pub fn rounded_percent_exec(num: u64, den: u64) -> (res: u64)
    requires
        den > 0,
        num <= den,
    ensures
        res == rounded_percent(num as nat, den as nat),
{
    let n = 100 * (num as u128);
    let d = den as u128;
    let q = n / d;
    let r = n % d;
    assert(q <= 100) by (nonlinear_arith)
        requires
            q == n / d,
            n == 100 * (num as int),
            num <= den,
            d == den,
            d > 0,
    ;
    if 2 * r > d {
        (q + 1) as u64
    } else if 2 * r < d {
        q as u64
    } else if q % 2 == 0 {
        q as u64
    } else {
        (q + 1) as u64
    }
}

/// Whether the page count fell by more than the tolerated share of `prev`.
pub open spec fn drop_exceeds(prev: nat, pages: nat, max_ppm: nat) -> bool {
    prev > 0 && pages < prev && (prev - pages) * 1_000_000 > max_ppm * prev
}

pub open spec fn missing_message(required: Seq<char>) -> Seq<char> {
    "required file missing: "@ + required
}

pub open spec fn below_minimum_message(pages: nat, min: nat) -> Seq<char> {
    "page count "@ + decimal(pages) + " below minimum "@ + decimal(min)
}

pub open spec fn dropped_message(prev: nat, pages: nat, max_ppm: nat) -> Seq<char> {
    "page count dropped "@ + decimal(rounded_percent((prev - pages) as nat, prev)) + "% ("@
        + decimal(prev) + " \u{2192} "@ + decimal(pages) + "), limit is "@ + decimal(
        rounded_percent(max_ppm, 1_000_000),
    ) + "%"@
}

pub open spec fn duplicates_message(names: Seq<Seq<char>>) -> Seq<char> {
    "duplicate basenames break wikilink resolution: "@ + join_with(names, ", "@)
}

/// One message per required file that is absent, in configuration order.
pub open spec fn missing_messages(required: Seq<Seq<char>>, present: Seq<bool>) -> Seq<Seq<char>>
    decreases required.len(),
{
    if required.len() == 0 {
        seq![]
    } else {
        let rest = missing_messages(required.drop_last(), present);
        if present[required.len() - 1] {
            rest
        } else {
            rest.push(missing_message(required.last()))
        }
    }
}

/// Everything that stops a release from being published.
pub open spec fn gate_violations(
    gate: &Gate,
    pages: nat,
    present: Seq<bool>,
    prev_pages: Option<usize>,
    duplicates: Seq<Seq<char>>,
) -> Seq<Seq<char>> {
    let missing = missing_messages(strs(gate.require_files@), present);
    let below: Seq<Seq<char>> = if pages < gate.min_pages {
        seq![below_minimum_message(pages, gate.min_pages as nat)]
    } else {
        seq![]
    };
    let dropped: Seq<Seq<char>> = match prev_pages {
        Some(prev) => if drop_exceeds(prev as nat, pages, gate.max_page_drop_ppm as nat) {
            seq![dropped_message(prev as nat, pages, gate.max_page_drop_ppm as nat)]
        } else {
            seq![]
        },
        None => seq![],
    };
    let dups: Seq<Seq<char>> = if duplicates.len() > 0 && gate.forbid_duplicate_basenames {
        seq![duplicates_message(duplicates)]
    } else {
        seq![]
    };
    missing + below + dropped + dups
}

/// What is reported without stopping the release.
pub open spec fn gate_warnings(gate: &Gate, duplicates: Seq<Seq<char>>) -> Seq<Seq<char>> {
    if duplicates.len() > 0 && !gate.forbid_duplicate_basenames {
        seq![duplicates_message(duplicates)]
    } else {
        seq![]
    }
}

/// Whether a release passes: every required file is there, the page count
/// meets the minimum and did not collapse, and no duplicate basename is
/// forbidden.
pub open spec fn gate_accepts(
    gate: &Gate,
    pages: nat,
    present: Seq<bool>,
    prev_pages: Option<usize>,
    duplicates: Seq<Seq<char>>,
) -> bool {
    &&& forall|i: int| 0 <= i < gate.require_files@.len() ==> present[i]
    &&& pages >= gate.min_pages
    &&& match prev_pages {
        Some(prev) => !drop_exceeds(prev as nat, pages, gate.max_page_drop_ppm as nat),
        None => true,
    }
    &&& (duplicates.len() > 0 ==> !gate.forbid_duplicate_basenames)
}

/// The publish gate's decision for a release with `pages` HTML pages.
///
/// `present[i]` tells whether `gate.require_files[i]` exists in the release,
/// `prev_pages` is the page count of the release being served, if any, and
/// `duplicates` are the content basenames that occur more than once.
pub fn evaluate(
    gate: &Gate,
    pages: usize,
    present: &Vec<bool>,
    prev_pages: Option<usize>,
    duplicates: &Vec<String>,
) -> (res: Verdict)
    requires
        present@.len() == gate.require_files@.len(),
    ensures
        res.pages == pages,
        strs(res.violations@) == gate_violations(gate, pages as nat, present@, prev_pages, strs(duplicates@)),
        strs(res.warnings@) == gate_warnings(gate, strs(duplicates@)),
{
    let mut violations: Vec<String> = Vec::new();
    let mut warnings: Vec<String> = Vec::new();
    let ghost req = strs(gate.require_files@);
    let mut i: usize = 0;
    assert(req.take(0) =~= Seq::<Seq<char>>::empty());
    assert(strs(violations@) =~= Seq::<Seq<char>>::empty());
    while i < gate.require_files.len()
        invariant
            i <= gate.require_files@.len(),
            present@.len() == gate.require_files@.len(),
            req == strs(gate.require_files@),
            strs(violations@) == missing_messages(req.take(i as int), present@),
        decreases gate.require_files@.len() - i,
    {
        assert(req.take(i + 1).drop_last() =~= req.take(i as int));
        assert(req.take(i + 1).last() == gate.require_files@[i as int]@);
        if !present[i] {
            let mut m: Vec<char> = Vec::new();
            push_str(&mut m, "required file missing: ");
            push_str(&mut m, gate.require_files[i].as_str());
            push_string(&mut violations, string_from_chars(&m));
        }
        i = i + 1;
    }
    assert(req.take(gate.require_files@.len() as int) =~= req);
    let ghost missing = strs(violations@);
    if pages < gate.min_pages {
        let mut m: Vec<char> = Vec::new();
        push_str(&mut m, "page count ");
        push_all(&mut m, &decimal_chars(pages as u64));
        push_str(&mut m, " below minimum ");
        push_all(&mut m, &decimal_chars(gate.min_pages as u64));
        push_string(&mut violations, string_from_chars(&m));
    }
    let ghost with_below = strs(violations@);
    if let Some(prev) = prev_pages {
        let diff: u128 = if pages < prev { (prev - pages) as u128 } else { 0 };
        assert((gate.max_page_drop_ppm as u128) * (prev as u128) <= 0xffff_ffff_u128 * 0xffff_ffff_ffff_ffff_u128) by (nonlinear_arith)
            requires
                gate.max_page_drop_ppm <= 0xffff_ffff,
                prev <= 0xffff_ffff_ffff_ffff,
        ;
        assert(diff * 1_000_000 <= 0xffff_ffff_ffff_ffff_u128 * 1_000_000);
        if prev > 0 && pages < prev && diff * 1_000_000 > (gate.max_page_drop_ppm as u128) * (
        prev as u128) {
            let mut m: Vec<char> = Vec::new();
            push_str(&mut m, "page count dropped ");
            push_all(&mut m, &decimal_chars(rounded_percent_exec((prev - pages) as u64, prev as u64)));
            push_str(&mut m, "% (");
            push_all(&mut m, &decimal_chars(prev as u64));
            push_str(&mut m, " \u{2192} ");
            push_all(&mut m, &decimal_chars(pages as u64));
            push_str(&mut m, "), limit is ");
            let limit = if gate.max_page_drop_ppm <= 1_000_000 {
                rounded_percent_exec(gate.max_page_drop_ppm as u64, 1_000_000)
            } else {
                // The value is out of range only if `Config::validate` was
                // skipped; the same rounding applies to it.
                let q = (gate.max_page_drop_ppm as u64) / 10_000;
                let r = (gate.max_page_drop_ppm as u64) % 10_000;
                assert(100 * (gate.max_page_drop_ppm as int) / 1_000_000 == q) by (nonlinear_arith)
                    requires
                        q == (gate.max_page_drop_ppm as int) / 10_000,
                ;
                assert(100 * (gate.max_page_drop_ppm as int) % 1_000_000 == 100 * r) by (nonlinear_arith)
                    requires
                        r == (gate.max_page_drop_ppm as int) % 10_000,
                ;
                if 2 * r > 10_000 {
                    q + 1
                } else if 2 * r < 10_000 {
                    q
                } else if q % 2 == 0 {
                    q
                } else {
                    q + 1
                }
            };
            push_all(&mut m, &decimal_chars(limit));
            push_str(&mut m, "%");
            push_string(&mut violations, string_from_chars(&m));
        }
    }
    let ghost with_drop = strs(violations@);
    if duplicates.len() > 0 {
        let mut m: Vec<char> = Vec::new();
        push_str(&mut m, "duplicate basenames break wikilink resolution: ");
        let joined = join_strings(duplicates, ", ");
        push_all(&mut m, &joined);
        if gate.forbid_duplicate_basenames {
            push_string(&mut violations, string_from_chars(&m));
        } else {
            push_string(&mut warnings, string_from_chars(&m));
        }
    }
    assert(strs(warnings@) =~= gate_warnings(gate, strs(duplicates@)));
    assert(strs(violations@) =~= gate_violations(gate, pages as nat, present@, prev_pages, strs(duplicates@)));
    Verdict { violations, warnings, pages }
}

/// A verdict passes exactly when the publish gate accepts the release.
pub proof fn lemma_passes_iff_accepted(
    gate: &Gate,
    pages: nat,
    present: Seq<bool>,
    prev_pages: Option<usize>,
    duplicates: Seq<Seq<char>>,
)
    requires
        present.len() == gate.require_files@.len(),
    ensures
        (gate_violations(gate, pages, present, prev_pages, duplicates).len() == 0) == gate_accepts(
            gate,
            pages,
            present,
            prev_pages,
            duplicates,
        ),
{
    lemma_missing_messages(strs(gate.require_files@), present);
}

proof fn lemma_missing_messages(required: Seq<Seq<char>>, present: Seq<bool>)
    requires
        present.len() == required.len(),
    ensures
        (missing_messages(required, present).len() == 0) == (forall|i: int|
            0 <= i < required.len() ==> present[i]),
    decreases required.len(),
{
    if required.len() > 0 {
        lemma_missing_messages(required.drop_last(), present.drop_last());
        lemma_missing_prefix(required.drop_last(), present);
        assert forall|i: int| 0 <= i < required.len() - 1 implies present.drop_last()[i] == present[i] by {}
    }
}

proof fn lemma_missing_prefix(required: Seq<Seq<char>>, present: Seq<bool>)
    requires
        required.len() <= present.len(),
    ensures
        missing_messages(required, present) == missing_messages(required, present.take(required.len() as int)),
    decreases required.len(),
{
    if required.len() > 0 {
        lemma_missing_prefix(required.drop_last(), present);
        lemma_missing_prefix(required.drop_last(), present.take(required.len() as int));
        assert(present.take(required.len() as int).take(required.len() - 1) =~= present.take(required.len() - 1));
    }
}

/// Growth is never a violation. A release with at least as many pages as
/// the one being served never trips the drop rule.
pub proof fn lemma_growth_never_drops(prev: nat, pages: nat, max_ppm: nat)
    requires
        pages >= prev,
    ensures
        !drop_exceeds(prev, pages, max_ppm),
{
}

/// A release whose page count fell by more than the tolerated share is
/// refused, and the refusal names the fall.
pub proof fn lemma_collapse_is_refused(
    gate: &Gate,
    pages: nat,
    present: Seq<bool>,
    prev: usize,
    duplicates: Seq<Seq<char>>,
)
    requires
        drop_exceeds(prev as nat, pages, gate.max_page_drop_ppm as nat),
    ensures
        gate_violations(gate, pages, present, Some(prev), duplicates).contains(
            dropped_message(prev as nat, pages, gate.max_page_drop_ppm as nat),
        ),
        "page count dropped "@.is_prefix_of(dropped_message(prev as nat, pages, gate.max_page_drop_ppm as nat)),
        !gate_accepts(gate, pages, present, Some(prev), duplicates),
{
    let missing = missing_messages(strs(gate.require_files@), present);
    let below: Seq<Seq<char>> = if pages < gate.min_pages {
        seq![below_minimum_message(pages, gate.min_pages as nat)]
    } else {
        seq![]
    };
    let m = dropped_message(prev as nat, pages, gate.max_page_drop_ppm as nat);
    let v = gate_violations(gate, pages, present, Some(prev), duplicates);
    assert(v[(missing.len() + below.len()) as int] == m);
    let head = "page count dropped "@;
    assert(m.subrange(0, head.len() as int) =~= head);
}

/// The drop rule compares the share of pages lost with the tolerated share:
/// with no tolerance every loss is refused; with a tolerance of the whole
/// count nothing is; more tolerance never refuses more, and losing more
/// pages never refuses less. A loss refused at a tolerance exceeds it: the
/// lost share, `(prev - pages) / prev`, is above `max_ppm / 1_000_000`.
pub proof fn lemma_drop_rule_measures_the_lost_share(prev: nat, pages: nat, fewer: nat, max_ppm: nat, more_ppm: nat)
    requires
        fewer <= pages,
        max_ppm <= more_ppm,
    ensures
        0 < prev && pages < prev ==> drop_exceeds(prev, pages, 0),
        !drop_exceeds(prev, pages, 1_000_000),
        drop_exceeds(prev, pages, more_ppm) ==> drop_exceeds(prev, pages, max_ppm),
        drop_exceeds(prev, pages, max_ppm) ==> drop_exceeds(prev, fewer, max_ppm),
        drop_exceeds(prev, pages, max_ppm) ==> pages < prev && 1_000_000 * (prev - pages) > max_ppm
            * prev,
{
    if prev > 0 && pages < prev {
        assert((prev - pages) * 1_000_000 <= 1_000_000 * prev) by (nonlinear_arith)
            requires pages < prev;
        assert(max_ppm * prev <= more_ppm * prev) by (nonlinear_arith)
            requires max_ppm <= more_ppm;
        assert((prev - pages) * 1_000_000 <= (prev - fewer) * 1_000_000) by (nonlinear_arith)
            requires fewer <= pages, pages < prev;
        assert((prev - pages) * 1_000_000 > 0) by (nonlinear_arith)
            requires pages < prev;
    }
}

/// An absent required file is refused by name, a page count under the
/// minimum is refused, forbidden duplicate basenames are refused and
/// tolerated ones warned about; a release within every rule passes.
pub proof fn lemma_each_rule_reports_itself(
    gate: &Gate,
    pages: nat,
    present: Seq<bool>,
    prev_pages: Option<usize>,
    duplicates: Seq<Seq<char>>,
)
    requires
        present.len() == gate.require_files@.len(),
    ensures
        forall|i: int|
            0 <= i < present.len() && !present[i] ==> #[trigger] gate_violations(
                gate,
                pages,
                present,
                prev_pages,
                duplicates,
            ).contains("required file missing: "@ + gate.require_files@[i]@),
        pages < gate.min_pages ==> gate_violations(gate, pages, present, prev_pages, duplicates).contains(
            below_minimum_message(pages, gate.min_pages as nat),
        ),
        duplicates.len() > 0 && gate.forbid_duplicate_basenames ==> gate_violations(
            gate,
            pages,
            present,
            prev_pages,
            duplicates,
        ).contains(duplicates_message(duplicates)),
        duplicates.len() > 0 && !gate.forbid_duplicate_basenames ==> gate_warnings(gate, duplicates)
            == seq![duplicates_message(duplicates)],
        duplicates.len() == 0 ==> gate_warnings(gate, duplicates).len() == 0,
        ((forall|i: int| 0 <= i < present.len() ==> present[i]) && pages >= gate.min_pages && (
        prev_pages matches Some(prev) ==> (pages >= prev || 1_000_000 * (prev - pages)
            <= gate.max_page_drop_ppm * prev)) && !(duplicates.len() > 0
            && gate.forbid_duplicate_basenames)) ==> gate_violations(
            gate,
            pages,
            present,
            prev_pages,
            duplicates,
        ).len() == 0,
{
    let req = strs(gate.require_files@);
    let missing = missing_messages(req, present);
    let below: Seq<Seq<char>> = if pages < gate.min_pages {
        seq![below_minimum_message(pages, gate.min_pages as nat)]
    } else {
        seq![]
    };
    let dropped: Seq<Seq<char>> = match prev_pages {
        Some(prev) => if drop_exceeds(prev as nat, pages, gate.max_page_drop_ppm as nat) {
            seq![dropped_message(prev as nat, pages, gate.max_page_drop_ppm as nat)]
        } else {
            seq![]
        },
        None => seq![],
    };
    let dups: Seq<Seq<char>> = if duplicates.len() > 0 && gate.forbid_duplicate_basenames {
        seq![duplicates_message(duplicates)]
    } else {
        seq![]
    };
    let v = gate_violations(gate, pages, present, prev_pages, duplicates);
    assert(v == missing + below + dropped + dups);
    assert forall|i: int| 0 <= i < present.len() && !present[i] implies #[trigger] v.contains(
        "required file missing: "@ + gate.require_files@[i]@,
    ) by {
        lemma_missing_reported(req, present, i);
        let k = choose|k: int| 0 <= k < missing.len() && missing[k] == missing_message(req[i]);
        assert(v[k] == missing[k]);
    }
    if pages < gate.min_pages {
        assert(v[missing.len() as int] == below_minimum_message(pages, gate.min_pages as nat));
    }
    if duplicates.len() > 0 && gate.forbid_duplicate_basenames {
        assert(v[(missing.len() + below.len() + dropped.len()) as int] == duplicates_message(duplicates));
    }
    lemma_passes_iff_accepted(gate, pages, present, prev_pages, duplicates);
}

proof fn lemma_missing_reported(required: Seq<Seq<char>>, present: Seq<bool>, i: int)
    requires
        present.len() == required.len(),
        0 <= i < required.len(),
        !present[i],
    ensures
        missing_messages(required, present).contains(missing_message(required[i])),
    decreases required.len(),
{
    let rest = missing_messages(required.drop_last(), present);
    if i == required.len() - 1 {
        assert(rest.push(missing_message(required.last()))[rest.len() as int] == missing_message(required[i]));
    } else {
        lemma_missing_prefix(required.drop_last(), present);
        lemma_missing_reported(required.drop_last(), present.take(required.len() - 1), i);
        assert(required.drop_last()[i] == required[i]);
        let k = choose|k: int| 0 <= k < rest.len() && rest[k] == missing_message(required[i]);
        if !present[required.len() - 1] {
            assert(rest.push(missing_message(required.last()))[k] == rest[k]);
        }
    }
}

/// The first build has nothing to compare against, so only the absolute
/// rules apply.
pub proof fn lemma_first_build_has_no_drop_rule(
    gate: &Gate,
    pages: nat,
    present: Seq<bool>,
    duplicates: Seq<Seq<char>>,
)
    requires
        present.len() == gate.require_files@.len(),
    ensures
        gate_accepts(gate, pages, present, None, duplicates) == (
        (forall|i: int| 0 <= i < gate.require_files@.len() ==> present[i]) && pages
            >= gate.min_pages && (duplicates.len() > 0 ==> !gate.forbid_duplicate_basenames)),
{
}

} // verus!
