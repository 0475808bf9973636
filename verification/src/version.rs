//! Downgrade guarding by component-wise semantic version comparison.
//!
//! A version string is split at every `.`; each component counts by its
//! decimal digit prefix (so pre-release or build suffixes such as `1-rc1`
//! are ignored for ordering), leading zeros discounted; a missing component
//! compares like `0`.  Installing a strictly lower version than the one
//! installed is a downgrade.

use vstd::prelude::*;
use crate::text::{split_sep, split_on};

verus! {

pub open spec fn is_digit(b: u8) -> bool {
    48 <= b <= 57
}

/// The end of the decimal digit prefix of `c`, scanning from `i`.
pub open spec fn digits_end(c: Seq<u8>, i: int) -> int
    decreases c.len() - i,
{
    if 0 <= i < c.len() && is_digit(c[i]) {
        digits_end(c, i + 1)
    } else {
        i
    }
}

/// The end of the run of `0` bytes scanning from `i`.
pub open spec fn zeros_end(c: Seq<u8>, i: int) -> int
    decreases c.len() - i,
{
    if 0 <= i < c.len() && c[i] == 48u8 {
        zeros_end(c, i + 1)
    } else {
        i
    }
}

/// A component normalized for comparison: its digit prefix with leading
/// zeros removed.  `"007"` normalizes to `"7"`; `"0"`, `""` and `"rc"` all
/// normalize to the empty sequence, which counts as zero.
pub open spec fn comp_norm(c: Seq<u8>) -> Seq<u8> {
    let z = zeros_end(c, 0);
    let d = digits_end(c, 0);
    if z <= d {
        c.subrange(z, d)
    } else {
        Seq::empty()
    }
}

/// Strict numeric order on normalized digit strings: a shorter string names
/// a smaller number; equal lengths compare by the first differing digit.
pub open spec fn digits_lt(a: Seq<u8>, b: Seq<u8>) -> bool
    decreases a.len(),
{
    a.len() < b.len() || (a.len() == b.len() && a.len() > 0 && (a[0] < b[0] || (a[0] == b[0]
        && digits_lt(a.skip(1), b.skip(1)))))
}

/// Strict order on component lists from position `i` on; a list that runs
/// out compares like zeros.
pub open spec fn comps_lt_from(a: Seq<Seq<u8>>, b: Seq<Seq<u8>>, i: int) -> bool
    decreases (if a.len() > i { a.len() - i } else { 0 }) + (if b.len() > i { b.len() - i } else { 0 }),
{
    if i >= a.len() && i >= b.len() {
        false
    } else {
        let ha = if i < a.len() && i >= 0 { comp_norm(a[i]) } else { Seq::empty() };
        let hb = if i < b.len() && i >= 0 { comp_norm(b[i]) } else { Seq::empty() };
        if digits_lt(ha, hb) {
            true
        } else if ha == hb {
            comps_lt_from(a, b, i + 1)
        } else {
            false
        }
    }
}

/// Strict order on whole version strings.
pub open spec fn version_lt(a: Seq<u8>, b: Seq<u8>) -> bool {
    comps_lt_from(split_sep(a, 46u8), split_sep(b, 46u8), 0)
}

/// Installing `new_version` over `installed_version` is a downgrade exactly
/// when the new version is strictly lower.
pub open spec fn spec_is_downgrade(new_version: Seq<u8>, installed_version: Seq<u8>) -> bool {
    version_lt(new_version, installed_version)
}

/// Strict numeric order is asymmetric, and strictly ordered strings differ.
proof fn lemma_digits_lt_asymm(a: Seq<u8>, b: Seq<u8>)
    ensures
        digits_lt(a, b) ==> !digits_lt(b, a) && a != b,
    decreases a.len(),
{
    if a.len() == b.len() && a.len() > 0 {
        lemma_digits_lt_asymm(a.skip(1), b.skip(1));
        if digits_lt(a, b) && a == b {
            assert(a.skip(1) == b.skip(1));
        }
    }
}

/// No version is a downgrade of itself: equal versions never trip the
/// downgrade guard.
pub proof fn lemma_no_self_downgrade(v: Seq<u8>)
    ensures
        !spec_is_downgrade(v, v),
{
    lemma_comps_lt_irrefl(split_sep(v, 46u8), 0);
}

proof fn lemma_comps_lt_irrefl(a: Seq<Seq<u8>>, i: int)
    ensures
        !comps_lt_from(a, a, i),
    decreases (if a.len() > i { a.len() - i } else { 0 }),
{
    if i < a.len() {
        let h = comp_norm(a[i]);
        lemma_digits_lt_asymm(h, h);
        assert(!digits_lt(h, h)) by {
            if digits_lt(h, h) {
                lemma_digits_lt_asymm(h, h);
            }
        }
        lemma_comps_lt_irrefl(a, i + 1);
    }
}

/// Extracts the normalized form of one version component.
fn comp_norm_exec(c: &Vec<u8>) -> (r: Vec<u8>)
    ensures
        r@ == comp_norm(c@),
{
    let n = c.len();
    let mut d: usize = 0;
    while d < n && 48 <= c[d] && c[d] <= 57
        invariant
            d <= n,
            n == c@.len(),
            digits_end(c@, 0) == digits_end(c@, d as int),
        decreases n - d,
    {
        d += 1;
    }
    let mut z: usize = 0;
    while z < n && c[z] == 48
        invariant
            z <= n,
            n == c@.len(),
            zeros_end(c@, 0) == zeros_end(c@, z as int),
        decreases n - z,
    {
        z += 1;
    }
    proof {
        assert(digits_end(c@, 0) == d as int);
        assert(zeros_end(c@, 0) == z as int);
    }
    let mut out: Vec<u8> = Vec::new();
    if z <= d {
        let mut k: usize = z;
        while k < d
            invariant
                z <= k <= d <= n,
                n == c@.len(),
                out@ == c@.subrange(z as int, k as int),
            decreases d - k,
        {
            let b = c[k];
            out.push(b);
            proof {
                assert(out@ =~= c@.subrange(z as int, k as int + 1));
            }
            k += 1;
        }
    }
    out
}

/// Compares two normalized components: negative for less, zero for equal,
/// positive for greater.
fn digits_cmp(a: &Vec<u8>, b: &Vec<u8>) -> (r: i8)
    ensures
        r == -1 ==> digits_lt(a@, b@),
        r == 1 ==> digits_lt(b@, a@),
        r == 0 ==> a@ == b@,
        r == -1 || r == 0 || r == 1,
{
    if a.len() < b.len() {
        return -1;
    }
    if b.len() < a.len() {
        return 1;
    }
    let mut i: usize = 0;
    while i < a.len()
        invariant
            i <= a.len(),
            a@.len() == b@.len(),
            a@.skip(0) =~= a@,
            b@.skip(0) =~= b@,
            forall|k: int| 0 <= k < i ==> a@[k] == b@[k],
            digits_lt(a@, b@) == digits_lt(a@.skip(i as int), b@.skip(i as int)),
            digits_lt(b@, a@) == digits_lt(b@.skip(i as int), a@.skip(i as int)),
        decreases a.len() - i,
    {
        proof {
            assert(a@.skip(i as int).skip(1) =~= a@.skip(i as int + 1));
            assert(b@.skip(i as int).skip(1) =~= b@.skip(i as int + 1));
        }
        if a[i] < b[i] {
            return -1;
        }
        if b[i] < a[i] {
            return 1;
        }
        i += 1;
    }
    proof {
        assert(a@ =~= b@);
    }
    0
}

/// Whether installing `new_version` over `installed_version` would be a
/// downgrade.  Equal versions are not a downgrade; a reinstall of the same
/// version proceeds with only a warning.
pub fn is_downgrade(new_version: &Vec<u8>, installed_version: &Vec<u8>) -> (r: bool)
    ensures
        r == spec_is_downgrade(new_version@, installed_version@),
{
    let a = split_on(new_version, 46u8);
    let b = split_on(installed_version, 46u8);
    let ghost ad = a.deep_view();
    let ghost bd = b.deep_view();
    proof {
        assert(ad.len() == a@.len());
        assert(bd.len() == b@.len());
    }
    let mut i: usize = 0;
    let empty: Vec<u8> = Vec::new();
    while i < a.len() || i < b.len()
        invariant
            ad == a.deep_view(),
            bd == b.deep_view(),
            ad == split_sep(new_version@, 46u8),
            bd == split_sep(installed_version@, 46u8),
            empty@ == Seq::<u8>::empty(),
            comps_lt_from(ad, bd, 0) == comps_lt_from(ad, bd, i as int),
        decreases (if a.len() > i { a.len() - i } else { 0 }) + (if b.len() > i { b.len() - i } else { 0 }),
    {
        let ca = if i < a.len() {
            comp_norm_exec(&a[i])
        } else {
            comp_norm_exec(&empty)
        };
        let cb = if i < b.len() {
            comp_norm_exec(&b[i])
        } else {
            comp_norm_exec(&empty)
        };
        proof {
            if i < a.len() {
                assert(ad[i as int] == a[i as int]@);
            }
            if i < b.len() {
                assert(bd[i as int] == b[i as int]@);
            }
            assert(comp_norm(Seq::<u8>::empty()) =~= Seq::<u8>::empty());
        }
        let ghost ha = if i < ad.len() { comp_norm(ad[i as int]) } else { Seq::<u8>::empty() };
        let ghost hb = if i < bd.len() { comp_norm(bd[i as int]) } else { Seq::<u8>::empty() };
        proof {
            assert(ca@ == ha);
            assert(cb@ == hb);
        }
        let c = digits_cmp(&ca, &cb);
        if c == -1 {
            proof {
                assert(digits_lt(ha, hb));
                assert(comps_lt_from(ad, bd, i as int));
            }
            return true;
        }
        if c == 1 {
            proof {
                lemma_digits_lt_asymm(cb@, ca@);
                assert(!digits_lt(ha, hb) && ha != hb);
                assert(!comps_lt_from(ad, bd, i as int));
            }
            return false;
        }
        proof {
            assert(ha == hb);
            lemma_digits_lt_asymm(ha, hb);
            assert(comps_lt_from(ad, bd, i as int) == comps_lt_from(ad, bd, i as int + 1));
        }
        i += 1;
    }
    proof {
        assert(!comps_lt_from(ad, bd, i as int));
    }
    false
}

} // verus!
