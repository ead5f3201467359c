//! The bus-factor rule: a repository is reported when its most active
//! contributor holds at least three quarters of the recorded contributions.
//!
//! The ratio is kept exact, as the pair of the top contributor's count and
//! the total, so that the threshold is decided in integers.

use vstd::prelude::*;
use crate::error::FetchError;
use crate::github_api::{Contributor, RepoInfo};

verus! {

/// How many contributors are asked for per repository, most active first.
pub const AMOUNT_OF_CONTRIBUTORS: usize = 25;

/// Numerator of the bus-factor threshold, three quarters.
pub const BUS_FACTOR_THRESHOLD_NUMERATOR: u128 = 3;

/// Denominator of the bus-factor threshold, three quarters.
pub const BUS_FACTOR_THRESHOLD_DENOMINATOR: u128 = 4;

/// A repository together with what the request for its contributors gave.
#[derive(Debug, PartialEq, Eq)]
pub struct FetchedRepo {
    /// The repository, as the search returned it.
    pub repo: RepoInfo,
    /// Its contributors, most active first, or why they could not be had.
    pub contributors: Result<Vec<Contributor>, FetchError>,
}

/// A repository whose work is concentrated in one contributor.
///
/// The concentration ratio is `top_contributor.contributions` divided by
/// `total_contributions`.
#[derive(Debug, PartialEq, Eq)]
pub struct BusFactorResult {
    /// Name of the repository.
    pub repository_name: String,
    /// The most active contributor.
    pub top_contributor: Contributor,
    /// Sum of the contributions of all contributors that were fetched.
    pub total_contributions: u128,
}

/// Sum of the contribution counts of `contributors`.
pub open spec fn total_contributions(contributors: Seq<Contributor>) -> nat
    decreases contributors.len(),
{
    if contributors.len() == 0 {
        0
    } else {
        total_contributions(contributors.drop_last()) + contributors.last().contributions as nat
    }
}

/// `top / total` is defined and at least the threshold.
pub open spec fn meets_threshold(top: nat, total: nat) -> bool {
    total > 0 && BUS_FACTOR_THRESHOLD_DENOMINATOR * top >= BUS_FACTOR_THRESHOLD_NUMERATOR * total
}

/// The first of `contributors` holds at least the threshold share of all
/// their contributions.
pub open spec fn is_concentrated(contributors: Seq<Contributor>) -> bool {
    contributors.len() > 0 && meets_threshold(
        contributors[0].contributions as nat,
        total_contributions(contributors),
    )
}

/// What one repository adds to the report: its entry when the fetch
/// succeeded and the contributions are concentrated, nothing otherwise.
pub open spec fn repo_bus_factor(fetched: FetchedRepo) -> Option<BusFactorResult> {
    match fetched.contributors {
        Ok(list) => if is_concentrated(list@) {
            Some(
                BusFactorResult {
                    repository_name: fetched.repo.name,
                    top_contributor: list@[0],
                    total_contributions: total_contributions(list@) as u128,
                },
            )
        } else {
            None
        },
        Err(_) => None,
    }
}

/// The report for a list of repositories: the entries of those that
/// qualify, in the order of the list.
pub open spec fn bus_factor_report(fetched: Seq<FetchedRepo>) -> Seq<BusFactorResult>
    decreases fetched.len(),
{
    if fetched.len() == 0 {
        Seq::empty()
    } else {
        let before = bus_factor_report(fetched.drop_last());
        match repo_bus_factor(fetched.last()) {
            Some(entry) => before.push(entry),
            None => before,
        }
    }
}

/// The total of a list is bounded by its length times the largest count,
/// and no single count exceeds it.
pub proof fn lemma_total_bounds(contributors: Seq<Contributor>)
    ensures
        total_contributions(contributors) <= contributors.len() * usize::MAX,
        forall|i: int|
            0 <= i < contributors.len() ==> (#[trigger] contributors[i]).contributions
                <= total_contributions(contributors),
    decreases contributors.len(),
{
    if contributors.len() > 0 {
        let init = contributors.drop_last();
        lemma_total_bounds(init);
        assert(init.len() * usize::MAX + usize::MAX == contributors.len() * usize::MAX)
            by (nonlinear_arith)
            requires
                init.len() + 1 == contributors.len(),
        ;
        assert forall|i: int| 0 <= i < contributors.len() implies (#[trigger] contributors[i])
            .contributions <= total_contributions(contributors) by {
            if i < init.len() {
                assert(init[i] == contributors[i]);
            }
        }
    }
}

/// The report of two lists put end to end is the two reports put end to
/// end: each repository is judged on its own.
pub proof fn lemma_report_concat(first: Seq<FetchedRepo>, second: Seq<FetchedRepo>)
    ensures
        bus_factor_report(first + second) == bus_factor_report(first) + bus_factor_report(second),
    decreases second.len(),
{
    if second.len() == 0 {
        assert(first + second == first);
        assert(bus_factor_report(first) + Seq::<BusFactorResult>::empty() == bus_factor_report(
            first,
        ));
    } else {
        let whole = first + second;
        assert(whole.drop_last() == first + second.drop_last());
        assert(whole.last() == second.last());
        lemma_report_concat(first, second.drop_last());
        let head = bus_factor_report(first);
        let tail = bus_factor_report(second.drop_last());
        match repo_bus_factor(second.last()) {
            Some(entry) => {
                assert((head + tail).push(entry) == head + tail.push(entry));
            },
            None => {},
        }
    }
}

/// A repository whose contributors could not be fetched adds nothing to
/// the report, and the repositories around it are reported as if it were
/// not there.
pub proof fn lemma_failed_fetch_is_left_out(
    before: Seq<FetchedRepo>,
    failed: FetchedRepo,
    after: Seq<FetchedRepo>,
)
    requires
        failed.contributors is Err,
    ensures
        repo_bus_factor(failed) is None,
        bus_factor_report(before.push(failed) + after) == bus_factor_report(before)
            + bus_factor_report(after),
{
    lemma_report_concat(before.push(failed), after);
    assert(before.push(failed).drop_last() == before);
}

/// A repository with no contributors, or whose contributions add up to
/// zero, adds nothing to the report, and the repositories around it are
/// reported as if it were not there.
pub proof fn lemma_no_contributions_is_left_out(
    before: Seq<FetchedRepo>,
    idle: FetchedRepo,
    after: Seq<FetchedRepo>,
)
    requires
        idle.contributors matches Ok(list) && total_contributions(list@) == 0,
    ensures
        repo_bus_factor(idle) is None,
        bus_factor_report(before.push(idle) + after) == bus_factor_report(before)
            + bus_factor_report(after),
{
    lemma_report_concat(before.push(idle), after);
    assert(before.push(idle).drop_last() == before);
}

/// The report keeps the order of the repositories: its entries are those
/// of the qualifying repositories, taken at strictly increasing positions
/// of the list, and no qualifying repository is passed over. The result
/// gives, for each entry of the report, the position of its repository.
pub proof fn lemma_report_keeps_order(fetched: Seq<FetchedRepo>) -> (picks: Seq<int>)
    ensures
        picks.len() == bus_factor_report(fetched).len(),
        forall|k: int| 0 <= k < picks.len() ==> 0 <= #[trigger] picks[k] < fetched.len(),
        forall|j: int, k: int| 0 <= j < k < picks.len() ==> picks[j] < picks[k],
        forall|k: int|
            0 <= k < picks.len() ==> repo_bus_factor(fetched[#[trigger] picks[k]]) == Some(
                bus_factor_report(fetched)[k],
            ),
        forall|i: int|
            0 <= i < fetched.len() && (#[trigger] repo_bus_factor(fetched[i])) is Some
                ==> picks.contains(i),
    decreases fetched.len(),
{
    if fetched.len() == 0 {
        Seq::empty()
    } else {
        let init = fetched.drop_last();
        let last = fetched.len() - 1;
        let earlier = lemma_report_keeps_order(init);
        assert forall|k: int| 0 <= k < earlier.len() implies fetched[#[trigger] earlier[k]]
            == init[earlier[k]] by {}
        match repo_bus_factor(fetched.last()) {
            Some(entry) => {
                let picks = earlier.push(last);
                assert forall|i: int|
                    0 <= i < fetched.len() && (#[trigger] repo_bus_factor(
                        fetched[i],
                    )) is Some implies picks.contains(i) by {
                    if i < last {
                        assert(init[i] == fetched[i]);
                        let k = choose|k: int| 0 <= k < earlier.len() && earlier[k] == i;
                        assert(picks[k] == i);
                    } else {
                        assert(picks[earlier.len() as int] == i);
                    }
                }
                picks
            },
            None => {
                assert forall|i: int|
                    0 <= i < fetched.len() && (#[trigger] repo_bus_factor(
                        fetched[i],
                    )) is Some implies earlier.contains(i) by {
                    assert(init[i] == fetched[i]);
                }
                earlier
            },
        }
    }
}

/// Sums the contribution counts of `contributors`.
pub fn sum_contributions(contributors: &Vec<Contributor>) -> (total: u128)
    ensures
        total == total_contributions(contributors@),
{
    let mut total: u128 = 0;
    let mut i: usize = 0;
    while i < contributors.len()
        invariant
            i <= contributors.len(),
            total == total_contributions(contributors@.take(i as int)),
        decreases contributors.len() - i,
    {
        proof {
            let next = contributors@.take(i + 1);
            assert(next.drop_last() == contributors@.take(i as int));
            lemma_total_bounds(next);
            assert(next.len() * usize::MAX <= usize::MAX * usize::MAX) by (nonlinear_arith)
                requires
                    next.len() <= usize::MAX,
            ;
            assert(usize::MAX * usize::MAX <= u128::MAX) by (nonlinear_arith)
                requires
                    usize::MAX <= 0xffff_ffff_ffff_ffff,
                    u128::MAX == 0xffff_ffff_ffff_ffff_ffff_ffff_ffff_ffff,
            ;
        }
        total = total + contributors[i].contributions as u128;
        i = i + 1;
    }
    proof {
        assert(contributors@.take(i as int) == contributors@);
    }
    total
}

/// Decides whether `top / total` reaches the threshold, in integers.
pub fn reaches_threshold(top: usize, total: u128) -> (yes: bool)
    ensures
        yes == meets_threshold(top as nat, total as nat),
{
    let top_wide: u128 = top as u128;
    if total == 0 {
        false
    } else if top_wide >= total {
        true
    } else {
        let others: u128 = total - top_wide;
        others <= top_wide && BUS_FACTOR_THRESHOLD_NUMERATOR * others <= top_wide
    }
}

/// Classifies one repository: its report entry when the contributors
/// were fetched, are not empty, add up to more than zero, and the first
/// of them holds at least the threshold share.
pub fn bus_factor_of(fetched: &FetchedRepo) -> (entry: Option<BusFactorResult>)
    ensures
        entry == repo_bus_factor(*fetched),
{
    match &fetched.contributors {
        Ok(list) => {
            if list.len() == 0 {
                return None;
            }
            let total: u128 = sum_contributions(list);
            if reaches_threshold(list[0].contributions, total) {
                Some(
                    BusFactorResult {
                        repository_name: fetched.repo.name.clone(),
                        top_contributor: list[0].clone(),
                        total_contributions: total,
                    },
                )
            } else {
                None
            }
        },
        Err(_) => None,
    }
}

/// Builds the report: one entry for each repository that qualifies, in
/// the order in which the repositories are given. A repository whose
/// fetch failed, or whose contributions are empty or add up to zero, is
/// left out and the others are still judged.
pub fn get_bus_factor(fetched: &Vec<FetchedRepo>) -> (report: Vec<BusFactorResult>)
    ensures
        report@ == bus_factor_report(fetched@),
{
    let mut report: Vec<BusFactorResult> = Vec::new();
    let mut i: usize = 0;
    while i < fetched.len()
        invariant
            i <= fetched.len(),
            report@ == bus_factor_report(fetched@.take(i as int)),
        decreases fetched.len() - i,
    {
        proof {
            assert(fetched@.take(i + 1).drop_last() == fetched@.take(i as int));
        }
        match bus_factor_of(&fetched[i]) {
            Some(entry) => {
                report.push(entry);
            },
            None => {},
        }
        i = i + 1;
    }
    proof {
        assert(fetched@.take(i as int) == fetched@);
    }
    report
}

} // verus!
