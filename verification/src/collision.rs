//! Filename collision resolution.
//!
//! When a file's mirrored destination is taken, the engine probes the
//! suffixed names `name.0`, `name.1`, … in ascending order and takes the
//! first that is free. The probe order is fixed, so the resulting name is
//! a function of the original name and of the set of names already present
//! at the destination.

use vstd::prelude::*;
use crate::path::DOT;

verus! {

broadcast use crate::views::lemma_bytes_deep_view;

/// How many suffixed candidates are probed before the resolver gives up
/// with `DuplicateLimitExceeded`.
pub const MAX_NUMBER_OF_DUPLICATES: u16 = 65535;

/// The decimal digits of `n`, most significant first.
pub open spec fn decimal(n: nat) -> Seq<u8>
    decreases n,
{
    if n < 10 {
        seq![(48 + n) as u8]
    } else {
        decimal(n / 10).push((48 + n % 10) as u8)
    }
}

/// The `n`-th probed name: the original name, a dot, and `n` in decimal.
pub open spec fn candidate(orig: Seq<u8>, n: nat) -> Seq<u8> {
    orig + seq![DOT] + decimal(n)
}

/// The smallest index at or after `n`, below the probe bound, whose
/// candidate name is not occupied.
pub open spec fn first_free(orig: Seq<u8>, occupied: Seq<Seq<u8>>, n: nat) -> Option<nat>
    decreases MAX_NUMBER_OF_DUPLICATES - n,
{
    if n >= MAX_NUMBER_OF_DUPLICATES as nat {
        None
    } else if !occupied.contains(candidate(orig, n)) {
        Some(n)
    } else {
        first_free(orig, occupied, n + 1)
    }
}

/// The name the collision resolver chooses for `orig` against the names
/// in `occupied`: `orig` itself when free, otherwise the first free
/// candidate, and nothing when the probe space is exhausted.
pub open spec fn chosen_name(orig: Seq<u8>, occupied: Seq<Seq<u8>>) -> Option<Seq<u8>> {
    if !occupied.contains(orig) {
        Some(orig)
    } else {
        match first_free(orig, occupied, 0) {
            Some(n) => Some(candidate(orig, n)),
            None => None,
        }
    }
}

/// Append the decimal digits of `n` to `out`.
pub fn push_decimal(out: &mut Vec<u8>, n: u16)
    ensures
        final(out)@ == old(out)@ + decimal(n as nat),
    decreases n,
{
    if n < 10 {
        out.push(48 + n as u8);
        proof {
            assert(out@ =~= old(out)@ + decimal(n as nat));
        }
    } else {
        push_decimal(out, n / 10);
        out.push(48 + (n % 10) as u8);
        proof {
            assert(out@ =~= old(out)@ + decimal(n as nat));
        }
    }
}

/// Build the `n`-th probed name for `orig`.
pub fn make_candidate(orig: &Vec<u8>, n: u16) -> (r: Vec<u8>)
    ensures
        r@ == candidate(orig@, n as nat),
{
    let mut r = orig.clone();
    proof {
        assert(r@ =~= orig@);
    }
    r.push(DOT);
    let ghost before = r@;
    push_decimal(&mut r, n);
    proof {
        assert(before =~= orig@ + seq![DOT]);
        assert(r@ =~= candidate(orig@, n as nat));
    }
    r
}

/// Whether `name` occurs in `names`.
pub fn contains_name(names: &Vec<Vec<u8>>, name: &Vec<u8>) -> (r: bool)
    ensures
        r == names.deep_view().contains(name@),
{
    let n = names.len();
    let mut i: usize = 0;
    while i < n
        invariant
            i <= n,
            n == names.len(),
            forall|j: int| 0 <= j < i ==> names.deep_view()[j] != name@,
        decreases n - i,
    {
        if crate::path::component_eq(&names[i], name) {
            proof {
                assert(names.deep_view()[i as int] == name@);
            }
            return true;
        }
        proof {
            assert(names.deep_view()[i as int] != name@);
        }
        i = i + 1;
    }
    proof {
        assert(!names.deep_view().contains(name@));
    }
    false
}

} // verus!
