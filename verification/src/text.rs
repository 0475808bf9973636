//! Byte-string utilities: equality and the comma-joined flat form in which a
//! package descriptor carries its `provides` and `conflicts` lists.

use vstd::prelude::*;

verus! {

/// Comma-joining, written as the loop computes it: after consuming the parts
/// from `i` on, the accumulated text is returned.  Joining `[a, b]` gives
/// `a ++ "," ++ b`; joining the empty sequence gives the empty sequence.
pub open spec fn join_commas_from(parts: Seq<Seq<u8>>, i: int, acc: Seq<u8>) -> Seq<u8>
    decreases parts.len() - i,
{
    if i < 0 || i >= parts.len() {
        acc
    } else if i + 1 < parts.len() {
        join_commas_from(parts, i + 1, acc + parts[i] + seq![44u8])
    } else {
        join_commas_from(parts, i + 1, acc + parts[i])
    }
}

pub open spec fn join_commas(parts: Seq<Seq<u8>>) -> Seq<u8> {
    join_commas_from(parts, 0, Seq::empty())
}

/// Splitting at a separator byte, consuming `s` byte by byte: `cur` is the
/// piece being built, `out` the pieces already complete.  Splitting the
/// empty sequence gives one empty piece, as splitting always yields one more
/// piece than there are separators.
pub open spec fn split_sep_from(s: Seq<u8>, sep: u8, cur: Seq<u8>, out: Seq<Seq<u8>>) -> Seq<
    Seq<u8>,
>
    decreases s.len(),
{
    if s.len() == 0 {
        out.push(cur)
    } else if s[0] == sep {
        split_sep_from(s.skip(1), sep, Seq::empty(), out.push(cur))
    } else {
        split_sep_from(s.skip(1), sep, cur.push(s[0]), out)
    }
}

pub open spec fn split_sep(s: Seq<u8>, sep: u8) -> Seq<Seq<u8>> {
    split_sep_from(s, sep, Seq::empty(), Seq::empty())
}

pub open spec fn split_commas(s: Seq<u8>) -> Seq<Seq<u8>> {
    split_sep(s, 44u8)
}

/// Joins byte strings with a single comma between consecutive elements.
pub fn vec_to_string(vec: &Vec<Vec<u8>>) -> (r: Vec<u8>)
    ensures
        r@ == join_commas(vec.deep_view()),
{
    let mut out: Vec<u8> = Vec::new();
    let mut i: usize = 0;
    while i < vec.len()
        invariant
            i <= vec.len(),
            join_commas(vec.deep_view()) == join_commas_from(vec.deep_view(), i as int, out@),
        decreases vec.len() - i,
    {
        let ghost prev = out@;
        let part: &Vec<u8> = &vec[i];
        proof {
            assert(vec.deep_view()[i as int] == part@);
        }
        let mut j: usize = 0;
        while j < part.len()
            invariant
                j <= part.len(),
                out@ == prev + part@.take(j as int),
            decreases part.len() - j,
        {
            out.push(part[j]);
            j += 1;
        }
        proof {
            assert(out@ =~= prev + vec.deep_view()[i as int]);
        }
        if i + 1 < vec.len() {
            out.push(44u8);
            proof {
                assert(out@ =~= prev + vec.deep_view()[i as int] + seq![44u8]);
            }
        }
        i += 1;
    }
    out
}

/// Splits a byte string at every comma; the inverse direction of
/// [`vec_to_string`] for comma-free elements.
pub fn string_to_vec(vec: &Vec<u8>) -> (r: Vec<Vec<u8>>)
    ensures
        r.deep_view() == split_commas(vec@),
{
    split_on(vec, 44u8)
}

/// Splits a byte string at every occurrence of the separator byte.
pub fn split_on(vec: &Vec<u8>, sep: u8) -> (r: Vec<Vec<u8>>)
    ensures
        r.deep_view() == split_sep(vec@, sep),
{
    let mut out: Vec<Vec<u8>> = Vec::new();
    let mut cur: Vec<u8> = Vec::new();
    let mut i: usize = 0;
    proof {
        assert(vec@.skip(0) =~= vec@);
        assert(out.deep_view() =~= Seq::<Seq<u8>>::empty());
    }
    while i < vec.len()
        invariant
            i <= vec.len(),
            split_sep(vec@, sep) == split_sep_from(vec@.skip(i as int), sep, cur@, out.deep_view()),
        decreases vec.len() - i,
    {
        let ghost pre_rest = vec@.skip(i as int);
        let ghost pre_cur = cur@;
        let ghost pre_out = out.deep_view();
        proof {
            assert(pre_rest.skip(1) =~= vec@.skip(i as int + 1));
            assert(pre_rest[0] == vec@[i as int]);
        }
        if vec[i] == sep {
            out.push(cur);
            cur = Vec::new();
            proof {
                assert(out.deep_view() =~~= pre_out.push(pre_cur));
            }
        } else {
            let b = vec[i];
            cur.push(b);
        }
        i += 1;
    }
    proof {
        assert(vec@.skip(i as int) =~= Seq::<u8>::empty());
    }
    let ghost fin_out = out.deep_view();
    let ghost fin_cur = cur@;
    out.push(cur);
    proof {
        assert(out.deep_view() =~~= fin_out.push(fin_cur));
    }
    out
}

/// A byte string free of commas, as the elements joined by
/// [`vec_to_string`] are expected to be.
pub open spec fn comma_free(p: Seq<u8>) -> bool {
    forall|k: int| 0 <= k < p.len() ==> p[k] != 44u8
}

/// Joining from `i` with text already accumulated only appends to it.
proof fn lemma_join_acc(parts: Seq<Seq<u8>>, i: int, acc: Seq<u8>)
    ensures
        join_commas_from(parts, i, acc) == acc + join_commas_from(parts, i, Seq::empty()),
    decreases parts.len() - i,
{
    if i < 0 || i >= parts.len() {
        assert(acc + Seq::<u8>::empty() =~= acc);
    } else if i + 1 < parts.len() {
        lemma_join_acc(parts, i + 1, acc + parts[i] + seq![44u8]);
        lemma_join_acc(parts, i + 1, Seq::empty() + parts[i] + seq![44u8]);
        assert(acc + parts[i] + seq![44u8] =~= acc + (Seq::empty() + parts[i] + seq![44u8]));
        assert((acc + (Seq::empty() + parts[i] + seq![44u8])) + join_commas_from(
            parts,
            i + 1,
            Seq::empty(),
        ) =~= acc + ((Seq::empty() + parts[i] + seq![44u8]) + join_commas_from(
            parts,
            i + 1,
            Seq::empty(),
        )));
    } else {
        lemma_join_acc(parts, i + 1, acc + parts[i]);
        lemma_join_acc(parts, i + 1, Seq::empty() + parts[i]);
        assert(acc + parts[i] =~= acc + (Seq::empty() + parts[i]));
        assert((acc + (Seq::empty() + parts[i])) + join_commas_from(parts, i + 1, Seq::empty())
            =~= acc + ((Seq::empty() + parts[i]) + join_commas_from(parts, i + 1, Seq::empty())));
    }
}

/// Splitting consumes a comma-free prefix into the current piece.
proof fn lemma_split_piece(p: Seq<u8>, s: Seq<u8>, cur: Seq<u8>, out: Seq<Seq<u8>>)
    requires
        comma_free(p),
    ensures
        split_sep_from(p + s, 44u8, cur, out) == split_sep_from(s, 44u8, cur + p, out),
    decreases p.len(),
{
    if p.len() == 0 {
        assert(p + s =~= s);
        assert(cur + p =~= cur);
    } else {
        assert((p + s)[0] == p[0]);
        assert((p + s).skip(1) =~= p.skip(1) + s);
        lemma_split_piece(p.skip(1), s, cur.push(p[0]), out);
        assert(cur.push(p[0]) + p.skip(1) =~= cur + p);
    }
}

proof fn lemma_roundtrip_from(parts: Seq<Seq<u8>>, i: int, out: Seq<Seq<u8>>)
    requires
        0 <= i < parts.len(),
        forall|j: int| 0 <= j < parts.len() ==> comma_free(#[trigger] parts[j]),
    ensures
        split_sep_from(join_commas_from(parts, i, Seq::empty()), 44u8, Seq::empty(), out) == out
            + parts.skip(i),
    decreases parts.len() - i,
{
    let ji = join_commas_from(parts, i, Seq::empty());
    if i + 1 < parts.len() {
        let rest = join_commas_from(parts, i + 1, Seq::empty());
        lemma_join_acc(parts, i + 1, Seq::empty() + parts[i] + seq![44u8]);
        assert(ji =~= parts[i] + (seq![44u8] + rest));
        lemma_split_piece(parts[i], seq![44u8] + rest, Seq::empty(), out);
        assert(Seq::empty() + parts[i] =~= parts[i]);
        assert((seq![44u8] + rest)[0] == 44u8);
        assert((seq![44u8] + rest).skip(1) =~= rest);
        lemma_roundtrip_from(parts, i + 1, out.push(parts[i]));
        assert(out.push(parts[i]) + parts.skip(i + 1) =~= out + parts.skip(i));
    } else {
        lemma_join_acc(parts, i + 1, Seq::empty() + parts[i]);
        assert(ji =~= parts[i] + Seq::<u8>::empty());
        lemma_split_piece(parts[i], Seq::empty(), Seq::empty(), out);
        assert(Seq::empty() + parts[i] =~= parts[i]);
        assert(out.push(parts[i]) =~= out + parts.skip(i));
    }
}

/// Splitting inverts joining: a non-empty list of comma-free byte strings
/// joined with commas and split again gives back exactly the original list.
pub proof fn lemma_split_join_roundtrip(parts: Seq<Seq<u8>>)
    requires
        parts.len() > 0,
        forall|j: int| 0 <= j < parts.len() ==> comma_free(#[trigger] parts[j]),
    ensures
        split_commas(join_commas(parts)) == parts,
{
    lemma_roundtrip_from(parts, 0, Seq::empty());
    assert(Seq::<Seq<u8>>::empty() + parts.skip(0) =~= parts);
}

/// Byte-string equality, usable where a derived `==` would be opaque to the
/// verifier.
pub fn bytes_eq(a: &[u8], b: &[u8]) -> (r: bool)
    ensures
        r <==> a@ == b@,
{
    if a.len() != b.len() {
        return false;
    }
    let mut i: usize = 0;
    while i < a.len()
        invariant
            i <= a.len(),
            a@.len() == b@.len(),
            forall|k: int| 0 <= k < i ==> a@[k] == b@[k],
        decreases a.len() - i,
    {
        if a[i] != b[i] {
            return false;
        }
        i += 1;
    }
    proof {
        assert(a@ =~= b@);
    }
    true
}

/// The literal token a mirror URL template carries where a repository name
/// belongs.
pub open spec fn repo_token() -> Seq<u8> {
    seq![36u8, 114u8, 101u8, 112u8, 111u8]
}

/// Template substitution, consuming the template from `i` on: every
/// occurrence of the token is replaced by `name`.
pub open spec fn subst_from(t: Seq<u8>, name: Seq<u8>, i: int, acc: Seq<u8>) -> Seq<u8>
    decreases t.len() - i,
{
    if i < 0 || i >= t.len() {
        acc
    } else if i + 5 <= t.len() && t.subrange(i, i + 5) == repo_token() {
        subst_from(t, name, i + 5, acc + name)
    } else {
        subst_from(t, name, i + 1, acc.push(t[i]))
    }
}

pub open spec fn subst_repo(t: Seq<u8>, name: Seq<u8>) -> Seq<u8> {
    subst_from(t, name, 0, Seq::empty())
}

/// Replaces every occurrence of the `$repo` token in a mirror URL template
/// with the repository name, producing the concrete base URL.
pub fn substitute(template: &Vec<u8>, name: &Vec<u8>) -> (r: Vec<u8>)
    ensures
        r@ == subst_repo(template@, name@),
{
    let t_len = template.len();
    let mut out: Vec<u8> = Vec::new();
    let mut i: usize = 0;
    while i < t_len
        invariant
            i <= t_len,
            t_len == template@.len(),
            subst_repo(template@, name@) == subst_from(template@, name@, i as int, out@),
        decreases t_len - i,
    {
        let ghost pre = out@;
        let is_token = t_len - i >= 5 && template[i] == 36 && template[i + 1] == 114 && template[i
            + 2] == 101 && template[i + 3] == 112 && template[i + 4] == 111;
        proof {
            if i + 5 <= t_len {
                let sub = template@.subrange(i as int, i as int + 5);
                if is_token {
                    assert(sub =~= repo_token());
                } else {
                    if sub == repo_token() {
                        assert(template@[i as int] == 36 && template@[i as int + 1] == 114
                            && template@[i as int + 2] == 101 && template@[i as int + 3] == 112
                            && template@[i as int + 4] == 111) by {
                            assert(sub[0] == 36 && sub[1] == 114 && sub[2] == 101 && sub[3] == 112
                                && sub[4] == 111);
                        }
                    }
                    assert(sub != repo_token());
                }
            }
        }
        if is_token {
            let mut k: usize = 0;
            while k < name.len()
                invariant
                    k <= name@.len(),
                    out@ == pre + name@.take(k as int),
                decreases name.len() - k,
            {
                let b = name[k];
                out.push(b);
                proof {
                    assert(out@ =~= pre + name@.take(k as int + 1));
                }
                k += 1;
            }
            proof {
                assert(out@ =~= pre + name@);
            }
            i += 5;
        } else {
            let b = template[i];
            out.push(b);
            i += 1;
        }
    }
    out
}

} // verus!
