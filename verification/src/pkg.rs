//! Package archives and their metadata descriptor.
//!
//! A package archive is an xz-compressed tar container; it is a valid
//! package exactly when it carries an entry at the literal path `PKG`.  The
//! `PKG` entry holds the package descriptor: a text object with the fields
//! `name`, `version`, `epoch`, `groups`, `provides` and `conflicts`, in that
//! order, with arbitrary whitespace between tokens; strings are quoted with
//! the usual backslash escapes, `epoch` is a decimal integer, `groups` an
//! array of strings.  [`decode_pkg_file`] parses a descriptor and its
//! contract ties the result to the specification-level parser [`sp_pkg`];
//! malformed content is rejected, which is fatal for an install attempt.

use vstd::prelude::*;
use crate::text::bytes_eq;
use crate::version::is_digit;

verus! {

/// A parsed package descriptor.
pub struct Package {
    pub name: Vec<u8>,
    pub version: Vec<u8>,
    pub epoch: i64,
    pub groups: Vec<Vec<u8>>,
    /// Comma-joined names this package provides.
    pub provides: Vec<u8>,
    /// Comma-joined names this package conflicts with.
    pub conflicts: Vec<u8>,
}

/// The mathematical value of a [`Package`].
pub struct PackageV {
    pub name: Seq<u8>,
    pub version: Seq<u8>,
    pub epoch: int,
    pub groups: Seq<Seq<u8>>,
    pub provides: Seq<u8>,
    pub conflicts: Seq<u8>,
}

impl View for Package {
    type V = PackageV;

    open spec fn view(&self) -> PackageV {
        PackageV {
            name: self.name@,
            version: self.version@,
            epoch: self.epoch as int,
            groups: self.groups.deep_view(),
            provides: self.provides@,
            conflicts: self.conflicts@,
        }
    }
}

/// Error for a malformed package descriptor.
#[derive(Debug)]
pub struct PackageError;

pub open spec fn is_ws(b: u8) -> bool {
    b == 32 || b == 9 || b == 10 || b == 13
}

/// The first position at or after `i` holding no whitespace.
pub open spec fn sp_ws(s: Seq<u8>, i: int) -> int
    decreases s.len() - i,
{
    if 0 <= i < s.len() && is_ws(s[i]) {
        sp_ws(s, i + 1)
    } else {
        i
    }
}

pub proof fn lemma_ws_bounds(s: Seq<u8>, i: int)
    requires
        0 <= i <= s.len(),
    ensures
        i <= sp_ws(s, i) <= s.len(),
    decreases s.len() - i,
{
    if i < s.len() && is_ws(s[i]) {
        lemma_ws_bounds(s, i + 1);
    }
}

/// The byte an escape character stands for, if it is a recognized escape.
pub open spec fn unescape(b: u8) -> Option<u8> {
    if b == 34 {
        Option::Some(34u8)
    } else if b == 92 {
        Option::Some(92u8)
    } else if b == 47 {
        Option::Some(47u8)
    } else if b == 110 {
        Option::Some(10u8)
    } else if b == 116 {
        Option::Some(9u8)
    } else if b == 114 {
        Option::Some(13u8)
    } else {
        Option::None
    }
}

/// The body of a quoted string from position `i` (after the opening quote):
/// the unescaped content and the position after the closing quote.
pub open spec fn sp_string_body(s: Seq<u8>, i: int, acc: Seq<u8>) -> Option<(Seq<u8>, int)>
    decreases s.len() - i,
{
    if i < 0 || i >= s.len() {
        Option::None
    } else if s[i] == 34 {
        Option::Some((acc, i + 1))
    } else if s[i] == 92 {
        if i + 1 < s.len() {
            match unescape(s[i + 1]) {
                Option::Some(c) => sp_string_body(s, i + 2, acc.push(c)),
                Option::None => Option::None,
            }
        } else {
            Option::None
        }
    } else {
        sp_string_body(s, i + 1, acc.push(s[i]))
    }
}

/// A quoted string starting at `i`.
pub open spec fn sp_string(s: Seq<u8>, i: int) -> Option<(Seq<u8>, int)> {
    if 0 <= i < s.len() && s[i] == 34 {
        sp_string_body(s, i + 1, Seq::empty())
    } else {
        Option::None
    }
}

proof fn lemma_string_body_bounds(s: Seq<u8>, i: int, acc: Seq<u8>)
    ensures
        sp_string_body(s, i, acc) matches Option::Some(p) ==> i < p.1 <= s.len(),
    decreases s.len() - i,
{
    if 0 <= i < s.len() {
        if s[i] == 92 {
            if i + 1 < s.len() {
                match unescape(s[i + 1]) {
                    Option::Some(c) => lemma_string_body_bounds(s, i + 2, acc.push(c)),
                    Option::None => {},
                }
            }
        } else if s[i] != 34 {
            lemma_string_body_bounds(s, i + 1, acc.push(s[i]));
        }
    }
}

pub proof fn lemma_string_bounds(s: Seq<u8>, i: int)
    ensures
        sp_string(s, i) matches Option::Some(p) ==> i < p.1 <= s.len(),
{
    if 0 <= i < s.len() && s[i] == 34 {
        lemma_string_body_bounds(s, i + 1, Seq::empty());
    }
}

/// A decimal integer continued from `i` with accumulated value `val`;
/// values beyond the signed 64-bit range are rejected.
pub open spec fn sp_int_body(s: Seq<u8>, i: int, val: int) -> Option<(int, int)>
    decreases s.len() - i,
{
    if 0 <= i < s.len() && is_digit(s[i]) {
        let d = s[i] - 48;
        if val > (0x7fff_ffff_ffff_ffff - d) / 10 {
            Option::None
        } else {
            sp_int_body(s, i + 1, val * 10 + d)
        }
    } else {
        Option::Some((val, i))
    }
}

/// A decimal integer starting at `i`: at least one digit.
pub open spec fn sp_int(s: Seq<u8>, i: int) -> Option<(int, int)> {
    if 0 <= i < s.len() && is_digit(s[i]) {
        sp_int_body(s, i, 0)
    } else {
        Option::None
    }
}

/// The items of a string array from `i` on (positioned at a string), with
/// the items already read in `acc`; yields the items and the position after
/// the closing bracket.
pub open spec fn sp_array_items(s: Seq<u8>, i: int, acc: Seq<Seq<u8>>) -> Option<
    (Seq<Seq<u8>>, int),
>
    decreases s.len() - i,
    via sp_array_items_dec
{
    match sp_string(s, i) {
        Option::None => Option::None,
        Option::Some(p) => {
            let k = sp_ws(s, p.1);
            if 0 <= k < s.len() && s[k] == 44 {
                sp_array_items(s, sp_ws(s, k + 1), acc.push(p.0))
            } else if 0 <= k < s.len() && s[k] == 93 {
                Option::Some((acc.push(p.0), k + 1))
            } else {
                Option::None
            }
        },
    }
}

#[via_fn]
proof fn sp_array_items_dec(s: Seq<u8>, i: int, acc: Seq<Seq<u8>>) {
    lemma_string_bounds(s, i);
    match sp_string(s, i) {
        Option::None => {},
        Option::Some(p) => {
            lemma_ws_bounds(s, p.1);
            let k = sp_ws(s, p.1);
            if 0 <= k < s.len() && s[k] == 44 {
                lemma_ws_bounds(s, k + 1);
            }
        },
    }
}

/// A string array starting at `i` (positioned at the opening bracket).
pub open spec fn sp_array(s: Seq<u8>, i: int) -> Option<(Seq<Seq<u8>>, int)> {
    if 0 <= i < s.len() && s[i] == 91 {
        let j = sp_ws(s, i + 1);
        if 0 <= j < s.len() && s[j] == 93 {
            Option::Some((Seq::empty(), j + 1))
        } else {
            sp_array_items(s, j, Seq::empty())
        }
    } else {
        Option::None
    }
}

/// A member key at `i`: optional whitespace, the quoted key itself,
/// optional whitespace and a colon; yields the position of the value.
pub open spec fn sp_key(s: Seq<u8>, i: int, key: Seq<u8>) -> Option<int> {
    let j0 = sp_ws(s, i);
    match sp_string(s, j0) {
        Option::None => Option::None,
        Option::Some(p) => if p.0 == key {
            let c = sp_ws(s, p.1);
            if 0 <= c < s.len() && s[c] == 58 {
                Option::Some(sp_ws(s, c + 1))
            } else {
                Option::None
            }
        } else {
            Option::None
        },
    }
}

/// A comma followed by a member key.
pub open spec fn sp_comma_key(s: Seq<u8>, i: int, key: Seq<u8>) -> Option<int> {
    let c = sp_ws(s, i);
    if 0 <= c < s.len() && s[c] == 44 {
        sp_key(s, c + 1, key)
    } else {
        Option::None
    }
}

pub open spec fn key_name() -> Seq<u8> {
    seq![110u8, 97u8, 109u8, 101u8]
}

pub open spec fn key_version() -> Seq<u8> {
    seq![118u8, 101u8, 114u8, 115u8, 105u8, 111u8, 110u8]
}

pub open spec fn key_epoch() -> Seq<u8> {
    seq![101u8, 112u8, 111u8, 99u8, 104u8]
}

pub open spec fn key_groups() -> Seq<u8> {
    seq![103u8, 114u8, 111u8, 117u8, 112u8, 115u8]
}

pub open spec fn key_provides() -> Seq<u8> {
    seq![112u8, 114u8, 111u8, 118u8, 105u8, 100u8, 101u8, 115u8]
}

pub open spec fn key_conflicts() -> Seq<u8> {
    seq![99u8, 111u8, 110u8, 102u8, 108u8, 105u8, 99u8, 116u8, 115u8]
}

/// The specification-level descriptor parser: the whole text must be one
/// object carrying the six fields in order, and nothing after it.
pub open spec fn sp_pkg(s: Seq<u8>) -> Option<PackageV> {
    let i0 = sp_ws(s, 0);
    if !(0 <= i0 < s.len() && s[i0] == 123) {
        Option::None
    } else {
        match sp_key(s, i0 + 1, key_name()) {
            Option::None => Option::None,
            Option::Some(p1) => match sp_string(s, p1) {
                Option::None => Option::None,
                Option::Some(name) => match sp_comma_key(s, name.1, key_version()) {
                    Option::None => Option::None,
                    Option::Some(p2) => match sp_string(s, p2) {
                        Option::None => Option::None,
                        Option::Some(version) => match sp_comma_key(s, version.1, key_epoch()) {
                            Option::None => Option::None,
                            Option::Some(p3) => match sp_int(s, p3) {
                                Option::None => Option::None,
                                Option::Some(epoch) => match sp_comma_key(
                                    s,
                                    epoch.1,
                                    key_groups(),
                                ) {
                                    Option::None => Option::None,
                                    Option::Some(p4) => match sp_array(s, p4) {
                                        Option::None => Option::None,
                                        Option::Some(groups) => match sp_comma_key(
                                            s,
                                            groups.1,
                                            key_provides(),
                                        ) {
                                            Option::None => Option::None,
                                            Option::Some(p5) => match sp_string(s, p5) {
                                                Option::None => Option::None,
                                                Option::Some(provides) => match sp_comma_key(
                                                    s,
                                                    provides.1,
                                                    key_conflicts(),
                                                ) {
                                                    Option::None => Option::None,
                                                    Option::Some(p6) => match sp_string(s, p6) {
                                                        Option::None => Option::None,
                                                        Option::Some(conflicts) => {
                                                            let e = sp_ws(s, conflicts.1);
                                                            if !(0 <= e < s.len() && s[e] == 125) {
                                                                Option::None
                                                            } else if sp_ws(s, e + 1) == s.len() {
                                                                Option::Some(
                                                                    PackageV {
                                                                        name: name.0,
                                                                        version: version.0,
                                                                        epoch: epoch.0,
                                                                        groups: groups.0,
                                                                        provides: provides.0,
                                                                        conflicts: conflicts.0,
                                                                    },
                                                                )
                                                            } else {
                                                                Option::None
                                                            }
                                                        },
                                                    },
                                                },
                                            },
                                        },
                                    },
                                },
                            },
                        },
                    },
                },
            },
        }
    }
}

fn skip_ws(s: &Vec<u8>, i: usize) -> (r: usize)
    requires
        i <= s@.len(),
    ensures
        r == sp_ws(s@, i as int),
        i <= r <= s@.len(),
{
    let mut j = i;
    while j < s.len() && (s[j] == 32 || s[j] == 9 || s[j] == 10 || s[j] == 13)
        invariant
            i <= j <= s@.len(),
            sp_ws(s@, i as int) == sp_ws(s@, j as int),
        decreases s@.len() - j,
    {
        j += 1;
    }
    j
}

fn unescape_exec(b: u8) -> (r: Option<u8>)
    ensures
        r == unescape(b),
{
    if b == 34 {
        Some(34)
    } else if b == 92 {
        Some(92)
    } else if b == 47 {
        Some(47)
    } else if b == 110 {
        Some(10)
    } else if b == 116 {
        Some(9)
    } else if b == 114 {
        Some(13)
    } else {
        None
    }
}

fn parse_string(s: &Vec<u8>, i: usize) -> (r: Option<(Vec<u8>, usize)>)
    requires
        i <= s@.len(),
    ensures
        match r {
            Option::Some(p) => sp_string(s@, i as int) == Option::Some((p.0@, p.1 as int)) && i
                < p.1 <= s@.len(),
            Option::None => sp_string(s@, i as int) is None,
        },
{
    if !(i < s.len() && s[i] == 34) {
        return None;
    }
    let mut acc: Vec<u8> = Vec::new();
    let mut j = i + 1;
    loop
        invariant
            i as int + 1 <= j as int <= s@.len(),
            i < s@.len() && s@[i as int] == 34,
            sp_string(s@, i as int) == sp_string_body(s@, j as int, acc@),
        decreases s@.len() - j,
    {
        if j >= s.len() {
            return None;
        }
        let b = s[j];
        if b == 34 {
            return Some((acc, j + 1));
        }
        if b == 92 {
            if j + 1 >= s.len() {
                return None;
            }
            let eo = unescape_exec(s[j + 1]);
            if eo.is_none() {
                return None;
            }
            acc.push(eo.unwrap());
            j += 2;
        } else {
            acc.push(b);
            j += 1;
        }
    }
}

fn parse_int(s: &Vec<u8>, i: usize) -> (r: Option<(i64, usize)>)
    requires
        i <= s@.len(),
    ensures
        match r {
            Option::Some(p) => sp_int(s@, i as int) == Option::Some((p.0 as int, p.1 as int)) && i
                < p.1 <= s@.len(),
            Option::None => sp_int(s@, i as int) is None,
        },
{
    if !(i < s.len() && 48 <= s[i] && s[i] <= 57) {
        return None;
    }
    let mut val: i64 = 0;
    let mut j = i;
    while j < s.len() && 48 <= s[j] && s[j] <= 57
        invariant
            i <= j <= s@.len(),
            0 <= val,
            sp_int(s@, i as int) == sp_int_body(s@, j as int, val as int),
            i < s@.len() && is_digit(s@[i as int]),
            j > i || val == 0,
        decreases s@.len() - j,
    {
        let d = (s[j] - 48) as i64;
        if val > (0x7fff_ffff_ffff_ffff - d) / 10 {
            return None;
        }
        proof {
            assert(val * 10 + d <= 0x7fff_ffff_ffff_ffff) by (nonlinear_arith)
                requires
                    0 <= val,
                    0 <= d <= 9,
                    val <= (0x7fff_ffff_ffff_ffff - d) / 10,
            ;
        }
        val = val * 10 + d;
        j += 1;
    }
    proof {
        if j == i {
            assert(is_digit(s@[i as int]) && j < s@.len());
        }
    }
    Some((val, j))
}

fn parse_array(s: &Vec<u8>, i: usize) -> (r: Option<(Vec<Vec<u8>>, usize)>)
    requires
        i <= s@.len(),
    ensures
        match r {
            Option::Some(p) => sp_array(s@, i as int) == Option::Some(
                (p.0.deep_view(), p.1 as int),
            ) && p.1 <= s@.len(),
            Option::None => sp_array(s@, i as int) is None,
        },
{
    if !(i < s.len() && s[i] == 91) {
        return None;
    }
    let mut j = skip_ws(s, i + 1);
    if j < s.len() && s[j] == 93 {
        let empty: Vec<Vec<u8>> = Vec::new();
        proof {
            assert(empty.deep_view() =~= Seq::<Seq<u8>>::empty());
        }
        return Some((empty, j + 1));
    }
    let mut acc: Vec<Vec<u8>> = Vec::new();
    proof {
        assert(acc.deep_view() =~= Seq::<Seq<u8>>::empty());
    }
    loop
        invariant
            j <= s@.len(),
            sp_array(s@, i as int) == sp_array_items(s@, j as int, acc.deep_view()),
        decreases s@.len() - j,
    {
        let ps = parse_string(s, j);
        if ps.is_none() {
            return None;
        }
        let (v, j2) = ps.unwrap();
        let k = skip_ws(s, j2);
        let ghost pre_acc = acc.deep_view();
        let ghost vv = v@;
        if k < s.len() && s[k] == 44 {
            acc.push(v);
            proof {
                assert(acc.deep_view() =~~= pre_acc.push(vv));
            }
            j = skip_ws(s, k + 1);
        } else if k < s.len() && s[k] == 93 {
            acc.push(v);
            proof {
                assert(acc.deep_view() =~~= pre_acc.push(vv));
            }
            return Some((acc, k + 1));
        } else {
            return None;
        }
    }
}

fn parse_key(s: &Vec<u8>, i: usize, key: &Vec<u8>) -> (r: Option<usize>)
    requires
        i <= s@.len(),
    ensures
        match r {
            Option::Some(p) => sp_key(s@, i as int, key@) == Option::Some(p as int) && p
                <= s@.len(),
            Option::None => sp_key(s@, i as int, key@) is None,
        },
{
    let j0 = skip_ws(s, i);
    let ps = parse_string(s, j0);
    if ps.is_none() {
        return None;
    }
    let (k, j) = ps.unwrap();
    if !bytes_eq(k.as_slice(), key.as_slice()) {
        return None;
    }
    let c = skip_ws(s, j);
    if c < s.len() && s[c] == 58 {
        Some(skip_ws(s, c + 1))
    } else {
        None
    }
}

fn parse_comma_key(s: &Vec<u8>, i: usize, key: &Vec<u8>) -> (r: Option<usize>)
    requires
        i <= s@.len(),
    ensures
        match r {
            Option::Some(p) => sp_comma_key(s@, i as int, key@) == Option::Some(p as int) && p
                <= s@.len(),
            Option::None => sp_comma_key(s@, i as int, key@) is None,
        },
{
    let c = skip_ws(s, i);
    if c < s.len() && s[c] == 44 {
        parse_key(s, c + 1, key)
    } else {
        None
    }
}

fn kb_name() -> (r: Vec<u8>)
    ensures
        r@ == key_name(),
{
    let mut v: Vec<u8> = Vec::new();
    v.push(110);
    v.push(97);
    v.push(109);
    v.push(101);
    proof {
        assert(v@ =~= key_name());
    }
    v
}

fn kb_version() -> (r: Vec<u8>)
    ensures
        r@ == key_version(),
{
    let mut v: Vec<u8> = Vec::new();
    v.push(118);
    v.push(101);
    v.push(114);
    v.push(115);
    v.push(105);
    v.push(111);
    v.push(110);
    proof {
        assert(v@ =~= key_version());
    }
    v
}

fn kb_epoch() -> (r: Vec<u8>)
    ensures
        r@ == key_epoch(),
{
    let mut v: Vec<u8> = Vec::new();
    v.push(101);
    v.push(112);
    v.push(111);
    v.push(99);
    v.push(104);
    proof {
        assert(v@ =~= key_epoch());
    }
    v
}

fn kb_groups() -> (r: Vec<u8>)
    ensures
        r@ == key_groups(),
{
    let mut v: Vec<u8> = Vec::new();
    v.push(103);
    v.push(114);
    v.push(111);
    v.push(117);
    v.push(112);
    v.push(115);
    proof {
        assert(v@ =~= key_groups());
    }
    v
}

fn kb_provides() -> (r: Vec<u8>)
    ensures
        r@ == key_provides(),
{
    let mut v: Vec<u8> = Vec::new();
    v.push(112);
    v.push(114);
    v.push(111);
    v.push(118);
    v.push(105);
    v.push(100);
    v.push(101);
    v.push(115);
    proof {
        assert(v@ =~= key_provides());
    }
    v
}

fn kb_conflicts() -> (r: Vec<u8>)
    ensures
        r@ == key_conflicts(),
{
    let mut v: Vec<u8> = Vec::new();
    v.push(99);
    v.push(111);
    v.push(110);
    v.push(102);
    v.push(108);
    v.push(105);
    v.push(99);
    v.push(116);
    v.push(115);
    proof {
        assert(v@ =~= key_conflicts());
    }
    v
}

/// Parses the `PKG` entry's content into a package descriptor.  Succeeds
/// exactly on the texts the specification-level parser accepts; any
/// malformed content is rejected.
pub fn decode_pkg_file(pkg: &Vec<u8>) -> (r: Result<Package, PackageError>)
    ensures
        r matches Ok(p) ==> sp_pkg(pkg@) == Option::Some(p@),
        r is Err <==> sp_pkg(pkg@) is None,
{
    let i0 = skip_ws(pkg, 0);
    if !(i0 < pkg.len() && pkg[i0] == 123) {
        return Err(PackageError);
    }
    let p1 = match parse_key(pkg, i0 + 1, &kb_name()) {
        Some(p) => p,
        None => {
            return Err(PackageError);
        },
    };
    let (name, q1) = match parse_string(pkg, p1) {
        Some(p) => p,
        None => {
            return Err(PackageError);
        },
    };
    let p2 = match parse_comma_key(pkg, q1, &kb_version()) {
        Some(p) => p,
        None => {
            return Err(PackageError);
        },
    };
    let (version, q2) = match parse_string(pkg, p2) {
        Some(p) => p,
        None => {
            return Err(PackageError);
        },
    };
    let p3 = match parse_comma_key(pkg, q2, &kb_epoch()) {
        Some(p) => p,
        None => {
            return Err(PackageError);
        },
    };
    let (epoch, q3) = match parse_int(pkg, p3) {
        Some(p) => p,
        None => {
            return Err(PackageError);
        },
    };
    let p4 = match parse_comma_key(pkg, q3, &kb_groups()) {
        Some(p) => p,
        None => {
            return Err(PackageError);
        },
    };
    let (groups, q4) = match parse_array(pkg, p4) {
        Some(p) => p,
        None => {
            return Err(PackageError);
        },
    };
    let p5 = match parse_comma_key(pkg, q4, &kb_provides()) {
        Some(p) => p,
        None => {
            return Err(PackageError);
        },
    };
    let (provides, q5) = match parse_string(pkg, p5) {
        Some(p) => p,
        None => {
            return Err(PackageError);
        },
    };
    let p6 = match parse_comma_key(pkg, q5, &kb_conflicts()) {
        Some(p) => p,
        None => {
            return Err(PackageError);
        },
    };
    let (conflicts, q6) = match parse_string(pkg, p6) {
        Some(p) => p,
        None => {
            return Err(PackageError);
        },
    };
    let e = skip_ws(pkg, q6);
    if !(e < pkg.len() && pkg[e] == 125) {
        return Err(PackageError);
    }
    let e1 = skip_ws(pkg, e + 1);
    if e1 != pkg.len() {
        return Err(PackageError);
    }
    let p = Package { name, version, epoch, groups, provides, conflicts };
    proof {
        assert(sp_pkg(pkg@) == Option::Some(p@));
    }
    Ok(p)
}

/// The entry paths of an xz-compressed tar archive, or nothing when the
/// archive does not decode.
pub uninterp spec fn entries_of(archive: Seq<u8>) -> Option<Seq<Seq<u8>>>;

/// Relies on `xz2::read::XzDecoder` and `tar::Archive`: decoding an archive
/// and listing its entry paths is a function of the archive bytes alone.
#[verifier::external_body]
pub(crate) fn list_archive_entries(data: &Vec<u8>) -> (r: Option<Vec<Vec<u8>>>)
    ensures
        r matches Some(v) ==> entries_of(data@) == Option::Some(v.deep_view()),
        r is None <==> entries_of(data@) is None,
{
    let dec = xz2::read::XzDecoder::new(data.as_slice());
    let mut ar = tar::Archive::new(dec);
    let mut out: Vec<Vec<u8>> = Vec::new();
    let entries = match ar.entries() {
        Ok(e) => e,
        Err(_) => return None,
    };
    for e in entries {
        match e {
            Ok(en) => out.push(en.path_bytes().into_owned()),
            Err(_) => return None,
        }
    }
    Some(out)
}

/// The literal entry path whose presence marks an archive as a package.
pub open spec fn pkg_entry() -> Seq<u8> {
    seq![80u8, 75u8, 71u8]
}

/// Classifies an archive: it is a package exactly when it decodes and one of
/// its entries is the literal path `PKG`.  An archive that does not decode is
/// not a package.
pub fn check_if_package(archive: &Vec<u8>) -> (r: bool)
    ensures
        match entries_of(archive@) {
            Option::Some(es) => r <==> es.contains(pkg_entry()),
            Option::None => !r,
        },
{
    let entries = match list_archive_entries(archive) {
        Some(e) => e,
        None => {
            return false;
        },
    };
    let mut needle: Vec<u8> = Vec::new();
    needle.push(80);
    needle.push(75);
    needle.push(71);
    proof {
        assert(needle@ =~= pkg_entry());
    }
    crate::conflict::contains_bytes(&entries, &needle)
}

/// Whether an entry path names a payload file (directories end in `/`).
pub open spec fn is_file_entry(p: Seq<u8>) -> bool {
    !(p.len() > 0 && p[p.len() - 1] == 47)
}

/// The destination paths of the payload's file entries, in archive order,
/// each rooted at `/`.
pub open spec fn spec_candidates(entries: Seq<Seq<u8>>) -> Seq<Seq<u8>>
    decreases entries.len(),
{
    if entries.len() == 0 {
        Seq::empty()
    } else {
        spec_candidates(entries.drop_last()) + if is_file_entry(entries.last()) {
            seq![seq![47u8] + entries.last()]
        } else {
            Seq::empty()
        }
    }
}

/// Builds the candidate destination path list from payload entry paths:
/// directory entries are excluded, file paths are rooted at `/`.
pub fn candidate_paths(entries: &Vec<Vec<u8>>) -> (r: Vec<Vec<u8>>)
    ensures
        r.deep_view() == spec_candidates(entries.deep_view()),
{
    let mut out: Vec<Vec<u8>> = Vec::new();
    proof {
        assert(out.deep_view() =~= Seq::<Seq<u8>>::empty());
    }
    let mut i: usize = 0;
    while i < entries.len()
        invariant
            i <= entries.len(),
            out.deep_view() == spec_candidates(entries.deep_view().take(i as int)),
        decreases entries.len() - i,
    {
        let ghost pre = out.deep_view();
        let e = &entries[i];
        proof {
            assert(entries.deep_view()[i as int] == e@);
        }
        if !(e.len() > 0 && e[e.len() - 1] == 47) {
            let mut path: Vec<u8> = Vec::new();
            path.push(47);
            let mut k: usize = 0;
            while k < e.len()
                invariant
                    k <= e@.len(),
                    path@ == seq![47u8] + e@.take(k as int),
                decreases e.len() - k,
            {
                let b = e[k];
                path.push(b);
                proof {
                    assert(path@ =~= seq![47u8] + e@.take(k as int + 1));
                }
                k += 1;
            }
            proof {
                assert(path@ =~= seq![47u8] + e@);
            }
            out.push(path);
            proof {
                assert(out.deep_view() =~~= pre.push(seq![47u8] + e@));
            }
        }
        proof {
            let ed = entries.deep_view();
            assert(ed.take(i + 1).drop_last() =~= ed.take(i as int));
            assert(ed.take(i + 1).last() == ed[i as int]);
            assert(out.deep_view() =~~= spec_candidates(ed.take(i + 1)));
        }
        i += 1;
    }
    proof {
        assert(entries.deep_view().take(i as int) =~= entries.deep_view());
    }
    out
}

} // verus!
