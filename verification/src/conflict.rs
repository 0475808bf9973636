//! Conflict detection: compares the destination paths a package would
//! install against the live filesystem and the recorded manifest of any
//! prior installation of the same package.
//!
//! A destination path is a conflict exactly when it already exists on the
//! filesystem and either no prior installation of this package exists, or
//! the path is not among the prior installation's recorded files: a package
//! may freely overwrite files it already owns from a previous version of
//! itself, and may never silently overwrite a file it does not own.

use vstd::prelude::*;
use crate::text::bytes_eq;

verus! {

/// The outcome of one conflict check: every conflicting path, in candidate
/// order.
pub struct ConflictReport {
    pub is_conflict: bool,
    pub files: Vec<Vec<u8>>,
}

/// Whether one candidate path conflicts, given whether it exists on disk and
/// the prior installation's file manifest (`None` when no prior install
/// exists).
pub open spec fn conflict_at(path: Seq<u8>, on_disk: bool, prior: Option<Seq<Seq<u8>>>) -> bool {
    on_disk && match prior {
        Option::None => true,
        Option::Some(owned) => !owned.contains(path),
    }
}

/// The conflicting candidates, in candidate order.
pub open spec fn spec_conflicts(
    cands: Seq<Seq<u8>>,
    on_disk: Seq<bool>,
    prior: Option<Seq<Seq<u8>>>,
) -> Seq<Seq<u8>>
    decreases cands.len(),
{
    if cands.len() == 0 {
        Seq::empty()
    } else {
        spec_conflicts(cands.drop_last(), on_disk.drop_last(), prior)
            + if conflict_at(cands.last(), on_disk.last(), prior) {
                seq![cands.last()]
            } else {
                Seq::empty()
            }
    }
}

/// Whether a list of byte strings contains the given one.
pub fn contains_bytes(v: &Vec<Vec<u8>>, x: &Vec<u8>) -> (r: bool)
    ensures
        r <==> v.deep_view().contains(x@),
{
    let mut i: usize = 0;
    while i < v.len()
        invariant
            i <= v.len(),
            forall|k: int| 0 <= k < i ==> v.deep_view()[k] != x@,
        decreases v.len() - i,
    {
        if bytes_eq(v[i].as_slice(), x.as_slice()) {
            proof {
                assert(v.deep_view()[i as int] == x@);
            }
            return true;
        }
        proof {
            assert(v.deep_view()[i as int] == v[i as int]@);
        }
        i += 1;
    }
    false
}

/// Runs the conflict policy over the candidate destination paths of one
/// install attempt.  `on_disk[i]` reports whether `candidates[i]` already
/// exists on the live filesystem; `prior_files` is the prior installation's
/// recorded file list, or `None` for a fresh install.  The report lists every
/// conflicting path in candidate order (stable, not sorted).
pub fn run_conflict_check(
    candidates: &Vec<Vec<u8>>,
    on_disk: &Vec<bool>,
    prior_files: &Option<Vec<Vec<u8>>>,
) -> (r: ConflictReport)
    requires
        candidates@.len() == on_disk@.len(),
    ensures
        r.files.deep_view() == spec_conflicts(
            candidates.deep_view(),
            on_disk@,
            prior_files.deep_view(),
        ),
        r.is_conflict <==> spec_conflicts(
            candidates.deep_view(),
            on_disk@,
            prior_files.deep_view(),
        ).len() != 0,
{
    let ghost prior = prior_files.deep_view();
    let mut files: Vec<Vec<u8>> = Vec::new();
    let mut i: usize = 0;
    while i < candidates.len()
        invariant
            i <= candidates.len(),
            candidates@.len() == on_disk@.len(),
            prior == prior_files.deep_view(),
            files.deep_view() == spec_conflicts(
                candidates.deep_view().take(i as int),
                on_disk@.take(i as int),
                prior,
            ),
        decreases candidates.len() - i,
    {
        let ghost pre_files = files.deep_view();
        let hit = if !on_disk[i] {
            false
        } else {
            match prior_files {
                Option::None => true,
                Option::Some(owned) => !contains_bytes(owned, &candidates[i]),
            }
        };
        proof {
            assert(candidates.deep_view()[i as int] == candidates[i as int]@);
            assert(hit == conflict_at(candidates.deep_view()[i as int], on_disk@[i as int], prior));
        }
        if hit {
            let c = candidates[i].clone();
            files.push(c);
            proof {
                assert(files.deep_view() =~~= pre_files.push(candidates.deep_view()[i as int]));
            }
        }
        proof {
            let cd = candidates.deep_view();
            let od = on_disk@;
            assert(cd.take(i + 1).drop_last() =~= cd.take(i as int));
            assert(od.take(i + 1).drop_last() =~= od.take(i as int));
            assert(cd.take(i + 1).last() == cd[i as int]);
            assert(od.take(i + 1).last() == od[i as int]);
            if hit {
                assert(files.deep_view() =~~= spec_conflicts(cd.take(i + 1), od.take(i + 1), prior));
            } else {
                assert(files.deep_view() =~~= spec_conflicts(cd.take(i + 1), od.take(i + 1), prior));
            }
        }
        i += 1;
    }
    proof {
        assert(candidates.deep_view().take(i as int) =~= candidates.deep_view());
        assert(on_disk@.take(i as int) =~= on_disk@);
    }
    let is_conflict = files.len() != 0;
    ConflictReport { is_conflict, files }
}

} // verus!
