//! Pairwise mismatch detection over a collection of version records.

use vstd::prelude::*;
use crate::version::{MismatchView, RubyVersion, VersionLevel, VersionMismatch, VersionView};

verus! {

/// Whether the two records agree on all four version components
/// (`major`, `minor`, `teeny`, `patch`). A component present on one side
/// and absent on the other counts as a disagreement. The originating
/// file is not part of this comparison.
pub open spec fn same_core(a: VersionView, b: VersionView) -> bool {
    a.major == b.major && a.minor == b.minor && a.teeny == b.teeny && a.patch == b.patch
}

/// The first component, in the fixed order major, minor, teeny, patch,
/// at which the two records differ. Meaningful only when `!same_core(a, b)`.
pub open spec fn spec_mismatch_level(a: VersionView, b: VersionView) -> VersionLevel {
    if a.major != b.major {
        VersionLevel::Major
    } else if a.minor != b.minor {
        VersionLevel::Minor
    } else if a.teeny != b.teeny {
        VersionLevel::Teeny
    } else {
        VersionLevel::Patch
    }
}

/// What one pair contributes to the mismatch list: nothing when the two
/// records agree on every component, and one record classified at the
/// first differing component otherwise.
pub open spec fn spec_pair_result(a: VersionView, b: VersionView) -> Seq<MismatchView> {
    if same_core(a, b) {
        Seq::empty()
    } else {
        seq![MismatchView { level: spec_mismatch_level(a, b), versions: seq![a, b] }]
    }
}

/// The mismatches contributed by the pairs `(i, j)`, `j` ranging upward
/// from the given start to the end of the collection.
pub open spec fn spec_row(vs: Seq<VersionView>, i: int, j: int) -> Seq<MismatchView>
    decreases vs.len() - j,
{
    if 0 <= i < vs.len() && i < j < vs.len() {
        spec_pair_result(vs[i], vs[j]) + spec_row(vs, i, j + 1)
    } else {
        Seq::empty()
    }
}

/// The mismatches contributed by all pairs `(i', j)` with `i <= i' < j`,
/// rows in order of `i'`.
pub open spec fn spec_rows(vs: Seq<VersionView>, i: int) -> Seq<MismatchView>
    decreases vs.len() - i,
{
    if 0 <= i < vs.len() {
        spec_row(vs, i, i + 1) + spec_rows(vs, i + 1)
    } else {
        Seq::empty()
    }
}

/// The full mismatch list: every unordered pair of records, enumerated in
/// the stable order `(0,1), (0,2), ..., (1,2), ...`, each divergent pair
/// contributing one mismatch at its first differing component.
pub open spec fn spec_mismatches(vs: Seq<VersionView>) -> Seq<MismatchView> {
    spec_rows(vs, 0)
}

/// Compares two option-wrapped fields; equal exactly when both are absent
/// or both are present with equal text.
fn option_string_eq(a: &Option<String>, b: &Option<String>) -> (r: bool)
    ensures
        r == (a.deep_view() == b.deep_view()),
{
    match (a, b) {
        (Some(x), Some(y)) => *x == *y,
        (None, None) => true,
        _ => false,
    }
}

/// Compares two records component by component in the fixed order major,
/// minor, teeny, patch, and reports a mismatch at the first component
/// where they differ; reports nothing when all four agree.
pub fn compare_two_versions(left_version: &RubyVersion, right_version: &RubyVersion) -> (r:
    Option<VersionMismatch>)
    ensures
        (r is None) == same_core(left_version@, right_version@),
        r matches Some(m) ==> m@.level == spec_mismatch_level(left_version@, right_version@)
            && m@.versions == seq![left_version@, right_version@],
        (match r {
            Some(m) => seq![m@],
            None => Seq::<MismatchView>::empty(),
        }) == spec_pair_result(left_version@, right_version@),
{
    let level: VersionLevel;
    if left_version.major != right_version.major {
        level = VersionLevel::Major;
    } else if left_version.minor != right_version.minor {
        level = VersionLevel::Minor;
    } else if !option_string_eq(&left_version.teeny, &right_version.teeny) {
        level = VersionLevel::Teeny;
    } else if !option_string_eq(&left_version.patch, &right_version.patch) {
        level = VersionLevel::Patch;
    } else {
        return None;
    }
    let mismatch = VersionMismatch {
        level,
        versions: vec![left_version.clone(), right_version.clone()],
    };
    proof {
        assert(mismatch@.versions =~= seq![left_version@, right_version@]);
        assert(seq![mismatch@] =~= spec_pair_result(left_version@, right_version@));
    }
    Some(mismatch)
}

/// Enumerates every unordered pair of records, in the stable order of the
/// input collection, and collects one mismatch for each divergent pair.
pub fn detect_version_mismatches(versions: &Vec<RubyVersion>) -> (r: Vec<VersionMismatch>)
    ensures
        r.deep_view() == spec_mismatches(versions.deep_view()),
{
    let ghost vs = versions.deep_view();
    let n = versions.len();
    let mut mismatches: Vec<VersionMismatch> = Vec::new();
    proof {
        assert(mismatches.deep_view() + spec_rows(vs, 0) =~= spec_rows(vs, 0));
    }
    let mut i: usize = 0;
    while i < n
        invariant
            vs == versions.deep_view(),
            n == versions.len(),
            i <= n,
            mismatches.deep_view() + spec_rows(vs, i as int) == spec_mismatches(vs),
        decreases n - i,
    {
        let mut j: usize = i + 1;
        proof {
            assert(mismatches.deep_view() + spec_row(vs, i as int, j as int) + spec_rows(
                vs,
                i as int + 1,
            ) =~= mismatches.deep_view() + spec_rows(vs, i as int));
        }
        while j < n
            invariant
                vs == versions.deep_view(),
                n == versions.len(),
                i < n,
                i < j <= n,
                mismatches.deep_view() + spec_row(vs, i as int, j as int) + spec_rows(
                    vs,
                    i as int + 1,
                ) == spec_mismatches(vs),
            decreases n - j,
        {
            let ghost before = mismatches.deep_view();
            match compare_two_versions(&versions[i], &versions[j]) {
                Some(mismatch) => {
                    mismatches.push(mismatch);
                    proof {
                        assert(mismatches.deep_view() =~= before + spec_pair_result(
                            vs[i as int],
                            vs[j as int],
                        ));
                    }
                },
                None => {
                    proof {
                        assert(mismatches.deep_view() =~= before + spec_pair_result(
                            vs[i as int],
                            vs[j as int],
                        ));
                    }
                },
            }
            proof {
                assert(mismatches.deep_view() + spec_row(vs, i as int, j as int + 1) + spec_rows(
                    vs,
                    i as int + 1,
                ) =~= before + spec_row(vs, i as int, j as int) + spec_rows(vs, i as int + 1));
            }
            j = j + 1;
        }
        proof {
            assert(mismatches.deep_view() + spec_rows(vs, i as int + 1) =~= mismatches.deep_view()
                + spec_row(vs, i as int, j as int) + spec_rows(vs, i as int + 1));
        }
        i = i + 1;
    }
    proof {
        assert(mismatches.deep_view() =~= mismatches.deep_view() + spec_rows(vs, i as int));
    }
    mismatches
}

/// Collects the mismatches among the given records; the collection is
/// consumed and compared pairwise in its original order.
pub fn build_version_mismatches(versions: Vec<RubyVersion>) -> (r: Vec<VersionMismatch>)
    ensures
        r.deep_view() == spec_mismatches(versions.deep_view()),
{
    detect_version_mismatches(&versions)
}

proof fn lemma_row_no_divergence(vs: Seq<VersionView>, i: int, j: int)
    requires
        forall|k: int, l: int|
            0 <= k < vs.len() && 0 <= l < vs.len() ==> same_core(vs[k], vs[l]),
    ensures
        spec_row(vs, i, j) == Seq::<MismatchView>::empty(),
    decreases vs.len() - j,
{
    if 0 <= i < vs.len() && i < j < vs.len() {
        lemma_row_no_divergence(vs, i, j + 1);
        assert(spec_row(vs, i, j) =~= Seq::<MismatchView>::empty());
    }
}

proof fn lemma_rows_no_divergence(vs: Seq<VersionView>, i: int)
    requires
        forall|k: int, l: int|
            0 <= k < vs.len() && 0 <= l < vs.len() ==> same_core(vs[k], vs[l]),
    ensures
        spec_rows(vs, i) == Seq::<MismatchView>::empty(),
    decreases vs.len() - i,
{
    if 0 <= i < vs.len() {
        lemma_row_no_divergence(vs, i, i + 1);
        lemma_rows_no_divergence(vs, i + 1);
        assert(spec_rows(vs, i) =~= Seq::<MismatchView>::empty());
    }
}

/// Records that agree pairwise on every version component produce an
/// empty mismatch list.
pub proof fn lemma_no_divergence_no_mismatches(vs: Seq<VersionView>)
    requires
        forall|k: int, l: int|
            0 <= k < vs.len() && 0 <= l < vs.len() ==> same_core(vs[k], vs[l]),
    ensures
        spec_mismatches(vs) == Seq::<MismatchView>::empty(),
{
    lemma_rows_no_divergence(vs, 0);
}

/// What holds of every mismatch record the detector can produce: it
/// pairs exactly two records that diverge on some component, and its
/// level is the first component at which those two differ.
pub open spec fn well_formed_mismatch(m: MismatchView) -> bool {
    m.versions.len() == 2 && !same_core(m.versions[0], m.versions[1]) && m.level
        == spec_mismatch_level(m.versions[0], m.versions[1])
}

proof fn lemma_row_well_formed(vs: Seq<VersionView>, i: int, j: int)
    ensures
        forall|k: int|
            0 <= k < spec_row(vs, i, j).len() ==> well_formed_mismatch(
                #[trigger] spec_row(vs, i, j)[k],
            ),
    decreases vs.len() - j,
{
    if 0 <= i < vs.len() && i < j < vs.len() {
        lemma_row_well_formed(vs, i, j + 1);
        let head = spec_pair_result(vs[i], vs[j]);
        assert forall|k: int| 0 <= k < spec_row(vs, i, j).len() implies well_formed_mismatch(
            #[trigger] spec_row(vs, i, j)[k],
        ) by {
            if k < head.len() {
                assert(spec_row(vs, i, j)[k] == head[0]);
                assert(head[0].versions[0] == vs[i] && head[0].versions[1] == vs[j]);
            } else {
                assert(spec_row(vs, i, j)[k] == spec_row(vs, i, j + 1)[k - head.len()]);
            }
        }
    }
}

proof fn lemma_rows_well_formed(vs: Seq<VersionView>, i: int)
    ensures
        forall|k: int|
            0 <= k < spec_rows(vs, i).len() ==> well_formed_mismatch(
                #[trigger] spec_rows(vs, i)[k],
            ),
    decreases vs.len() - i,
{
    if 0 <= i < vs.len() {
        lemma_row_well_formed(vs, i, i + 1);
        lemma_rows_well_formed(vs, i + 1);
        let head = spec_row(vs, i, i + 1);
        assert forall|k: int| 0 <= k < spec_rows(vs, i).len() implies well_formed_mismatch(
            #[trigger] spec_rows(vs, i)[k],
        ) by {
            if k < head.len() {
                assert(spec_rows(vs, i)[k] == head[k]);
            } else {
                assert(spec_rows(vs, i)[k] == spec_rows(vs, i + 1)[k - head.len()]);
            }
        }
    }
}

/// Every mismatch in the detector's output pairs exactly two diverging
/// records and reports the first component at which they differ.
pub proof fn lemma_mismatch_level_is_first_difference(vs: Seq<VersionView>)
    ensures
        forall|k: int|
            0 <= k < spec_mismatches(vs).len() ==> well_formed_mismatch(
                #[trigger] spec_mismatches(vs)[k],
            ),
{
    lemma_rows_well_formed(vs, 0);
}

proof fn lemma_row_len(vs: Seq<VersionView>, i: int, j: int)
    requires
        i < j,
        j <= vs.len(),
    ensures
        spec_row(vs, i, j).len() <= vs.len() - j,
    decreases vs.len() - j,
{
    if 0 <= i < vs.len() && i < j < vs.len() {
        lemma_row_len(vs, i, j + 1);
    }
}

proof fn lemma_rows_len(vs: Seq<VersionView>, i: int)
    requires
        0 <= i <= vs.len(),
    ensures
        2 * spec_rows(vs, i).len() <= (vs.len() - i) * (vs.len() - i - 1),
    decreases vs.len() - i,
{
    if 0 <= i < vs.len() {
        lemma_row_len(vs, i, i + 1);
        lemma_rows_len(vs, i + 1);
        let n = vs.len() as int;
        assert(spec_rows(vs, i).len() == spec_row(vs, i, i + 1).len() + spec_rows(
            vs,
            i + 1,
        ).len());
        assert(2 * spec_rows(vs, i).len() <= 2 * (n - i - 1) + (n - i - 1) * (n - i - 2));
        assert(2 * (n - i - 1) + (n - i - 1) * (n - i - 2) == (n - i) * (n - i - 1))
            by (nonlinear_arith);
        assert(2 * spec_rows(vs, i).len() <= (n - i) * (n - i - 1));
        assert((vs.len() - i) * (vs.len() - i - 1) == (n - i) * (n - i - 1));
    } else {
        assert(i == vs.len());
        assert(spec_rows(vs, i).len() == 0);
        assert((vs.len() - i) * (vs.len() - i - 1) == 0) by (nonlinear_arith)
            requires i == vs.len();
    }
}

/// A collection of `n` records produces at most `n * (n - 1) / 2`
/// mismatches: one for each unordered pair at most.
pub proof fn lemma_mismatch_count_bound(vs: Seq<VersionView>)
    ensures
        spec_mismatches(vs).len() <= vs.len() * (vs.len() - 1) / 2,
{
    lemma_rows_len(vs, 0);
    let n = vs.len() as int;
    let count = spec_mismatches(vs).len() as int;
    vstd::arithmetic::div_mod::lemma_div_multiples_vanish(count, 2);
    vstd::arithmetic::div_mod::lemma_div_is_ordered(2 * count, n * (n - 1), 2);
}

} // verus!
