//! Library-wide laws, stated and proved once over the specification
//! functions that the engine's contracts use.

use vstd::prelude::*;
use crate::collision::{candidate, chosen_name, decimal, first_free, MAX_NUMBER_OF_DUPLICATES};
use crate::dumpster::{dumpster_dir_name, restore_target, yeet_target};
use crate::error::YeetError;
use crate::path::is_under;

verus! {

/// A decimal rendering is never empty, and has at least two digits from
/// ten upward.
proof fn lemma_decimal_len(n: nat)
    ensures
        decimal(n).len() >= 1,
        n >= 10 ==> decimal(n).len() >= 2,
    decreases n,
{
    if n >= 10 {
        lemma_decimal_len(n / 10);
    }
}

/// Distinct numbers render to distinct decimal digit strings.
proof fn lemma_decimal_injective(i: nat, j: nat)
    ensures
        decimal(i) == decimal(j) ==> i == j,
    decreases i + j,
{
    if decimal(i) == decimal(j) {
        if i < 10 && j < 10 {
            assert(decimal(i)[0] == decimal(j)[0]);
        } else if i < 10 && j >= 10 {
            lemma_decimal_len(j);
        } else if i >= 10 && j < 10 {
            lemma_decimal_len(i);
        } else {
            assert(decimal(i).last() == decimal(j).last());
            assert(decimal(i).drop_last() =~= decimal(i / 10));
            assert(decimal(j).drop_last() =~= decimal(j / 10));
            lemma_decimal_injective(i / 10, j / 10);
        }
    }
}

/// A suffixed candidate is longer than, hence never equal to, the
/// original name.
proof fn lemma_candidate_ne_orig(orig: Seq<u8>, i: nat)
    ensures
        candidate(orig, i) != orig,
{
    lemma_decimal_len(i);
    assert(candidate(orig, i).len() > orig.len());
}

/// Distinct suffix numbers give distinct candidate names.
proof fn lemma_candidate_injective(orig: Seq<u8>, i: nat, j: nat)
    ensures
        candidate(orig, i) == candidate(orig, j) ==> i == j,
{
    if candidate(orig, i) == candidate(orig, j) {
        let a = candidate(orig, i);
        let b = candidate(orig, j);
        assert(decimal(i) =~= decimal(j)) by {
            assert(decimal(i).len() == a.len() - orig.len() - 1);
            assert(decimal(j).len() == b.len() - orig.len() - 1);
            assert(forall|k: int|
                0 <= k < decimal(i).len() ==> decimal(i)[k] == a[orig.len() + 1 + k]
                    && decimal(j)[k] == b[orig.len() + 1 + k]);
        }
        lemma_decimal_injective(i, j);
    }
}

/// Probing skips exactly the occupied candidates: when every candidate
/// from `j` up to `k` is occupied, the probe from `j` lands where the
/// probe from `k` does.
proof fn lemma_first_free_from(orig: Seq<u8>, occupied: Seq<Seq<u8>>, j: nat, k: nat)
    requires
        j <= k <= MAX_NUMBER_OF_DUPLICATES as nat,
        forall|m: nat| j <= m < k ==> occupied.contains(#[trigger] candidate(orig, m)),
    ensures
        first_free(orig, occupied, j) == first_free(orig, occupied, k),
    decreases k - j,
{
    if j < k {
        assert(occupied.contains(candidate(orig, j)));
        lemma_first_free_from(orig, occupied, j + 1, k);
    }
}

/// The names produced by repeatedly yeeting files that carry the same
/// original filename into one destination directory that starts out
/// empty: each chosen name joins the directory's occupied names before
/// the next yeet probes it.
pub open spec fn repeated_names(orig: Seq<u8>, n: nat) -> Seq<Seq<u8>>
    decreases n,
{
    if n == 0 {
        Seq::empty()
    } else {
        let prev = repeated_names(orig, (n - 1) as nat);
        match chosen_name(orig, prev) {
            Some(name) => prev.push(name),
            None => prev,
        }
    }
}

/// Idempotent collision resolution: yeeting the same original filename
/// into an initially empty destination directory `n` times produces the
/// names `f`, `f.0`, `f.1`, …, `f.(n-2)` — every probe succeeds, the
/// numeric suffixes come in ascending order, and no name repeats.
pub proof fn lemma_repeated_names(orig: Seq<u8>, n: nat)
    requires
        n <= MAX_NUMBER_OF_DUPLICATES as nat,
    ensures
        repeated_names(orig, n).len() == n,
        n > 0 ==> repeated_names(orig, n)[0] == orig,
        forall|i: int|
            1 <= i < n ==> #[trigger] repeated_names(orig, n)[i] == candidate(
                orig,
                (i - 1) as nat,
            ),
        forall|i: int, j: int|
            0 <= i < j < n ==> repeated_names(orig, n)[i] != repeated_names(orig, n)[j],
    decreases n,
{
    if n > 0 {
        lemma_repeated_names(orig, (n - 1) as nat);
        let prev = repeated_names(orig, (n - 1) as nat);
        if n == 1 {
            assert(!prev.contains(orig));
            assert(chosen_name(orig, prev) == Some(orig));
        } else {
            assert(prev[0] == orig);
            assert(prev.contains(orig));
            let last = (n - 2) as nat;
            assert forall|m: nat| 0 <= m < last implies prev.contains(
                #[trigger] candidate(orig, m),
            ) by {
                assert(prev[m as int + 1] == candidate(orig, m));
            }
            assert forall|k: int| 0 <= k < prev.len() implies prev[k] != candidate(
                orig,
                last,
            ) by {
                if k == 0 {
                    lemma_candidate_ne_orig(orig, last);
                } else {
                    lemma_candidate_injective(orig, (k - 1) as nat, last);
                }
            }
            assert(!prev.contains(candidate(orig, last)));
            lemma_first_free_from(orig, prev, 0, last);
            assert(first_free(orig, prev, last) == Some(last));
            assert(chosen_name(orig, prev) == Some(candidate(orig, last)));
        }
    }
}

/// Round trip: for a file strictly below home whose mirrored slot is
/// free, the yeet destination is exactly the mirrored path under the
/// dumpster root, and restoring that destination targets exactly the
/// file's original location.
pub proof fn lemma_round_trip(
    home: Seq<Seq<u8>>,
    location: Seq<Seq<u8>>,
    abs: Seq<Seq<u8>>,
    occupied: Seq<Seq<u8>>,
)
    requires
        location == home.push(dumpster_dir_name()),
        !is_under(location, abs),
        is_under(home, abs),
        abs.len() > home.len(),
        !occupied.contains(abs.last()),
    ensures
        yeet_target(home, location, abs, occupied) == Ok::<Seq<Seq<u8>>, YeetError>(
            location + abs.skip(home.len() as int),
        ),
        restore_target(home, location, location + abs.skip(home.len() as int)) == Ok::<
            Seq<Seq<u8>>,
            YeetError,
        >(abs),
{
    let suffix = abs.skip(home.len() as int);
    let mirrored = location + suffix;
    assert(chosen_name(abs.last(), occupied) == Some(abs.last()));
    assert(suffix.len() > 0);
    assert(suffix.last() == abs.last());
    assert((location + suffix).drop_last() =~~= location + suffix.drop_last());
    assert((location + suffix.drop_last()).push(abs.last()) =~~= mirrored);
    assert(is_under(location, mirrored));
    assert(mirrored.skip(location.len() as int) =~~= suffix);
    assert(home + suffix =~~= abs);
}

} // verus!
