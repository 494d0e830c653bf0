//! The command-templating engine: literal find-and-replace of each
//! parameter's placeholder, parameters applied in declaration order.

use vstd::prelude::*;

use crate::config::Parameter;

verus! {

/// `pat` occurs in `s` starting at position `i`.
pub open spec fn match_at(s: Seq<char>, pat: Seq<char>, i: int) -> bool {
    &&& 0 <= i
    &&& i + pat.len() <= s.len()
    &&& s.subrange(i, i + pat.len() as int) == pat
}

/// `pat` occurs somewhere in `s`.
pub open spec fn occurs(s: Seq<char>, pat: Seq<char>) -> bool {
    exists|i: int| match_at(s, pat, i)
}

/// Replace every occurrence of `pat` in `s` by `rep`, scanning left to
/// right and never rescanning replacement text; an empty `pat` replaces
/// nothing.
pub open spec fn spec_replace(s: Seq<char>, pat: Seq<char>, rep: Seq<char>) -> Seq<char>
    decreases s.len(),
{
    if pat.len() == 0 || s.len() < pat.len() {
        s
    } else if s.subrange(0, pat.len() as int) == pat {
        rep + spec_replace(s.skip(pat.len() as int), pat, rep)
    } else {
        seq![s[0]] + spec_replace(s.skip(1), pat, rep)
    }
}

/// The views of a sequence of strings.
pub open spec fn string_views(values: Seq<String>) -> Seq<Seq<char>> {
    Seq::new(values.len(), |i: int| values[i]@)
}

/// Substitute the parameters' current values into the template, one
/// parameter after the other in declaration order.
pub open spec fn spec_substitute(
    template: Seq<char>,
    params: Seq<Parameter>,
    values: Seq<Seq<char>>,
) -> Seq<char>
    decreases params.len(),
{
    if params.len() == 0 {
        template
    } else {
        spec_substitute(
            spec_replace(template, params[0].placeholder@, values[0]),
            params.skip(1),
            values.skip(1),
        )
    }
}

/// Compares `pat` against the characters of `s` starting at position `i`.
fn matches_at(s: &str, pat: &str, i: usize) -> (b: bool)
    requires
        i + pat@.len() <= s@.len() <= usize::MAX,
    ensures
        b == (s@.subrange(i as int, i as int + pat@.len()) == pat@),
{
    let p = pat.unicode_len();
    let mut j: usize = 0;
    while j < p
        invariant
            p == pat@.len(),
            i + p <= s@.len() <= usize::MAX,
            j <= p,
            forall|k: int| 0 <= k < j ==> s@[i + k] == pat@[k],
        decreases p - j,
    {
        if s.get_char(i + j) != pat.get_char(j) {
            proof {
                assert(s@.subrange(i as int, i as int + pat@.len())[j as int] == s@[i + j]);
            }
            return false;
        }
        j = j + 1;
    }
    proof {
        assert(s@.subrange(i as int, i as int + pat@.len()) =~= pat@);
    }
    true
}

/// Replaces every occurrence of `pat` in `s` by `rep`, left to right,
/// without rescanning replacement text.
pub fn replace_all(s: &str, pat: &str, rep: &str) -> (out: String)
    ensures
        out@ == spec_replace(s@, pat@, rep@),
{
    let n = s.unicode_len();
    let p = pat.unicode_len();
    let mut out = String::new();
    if p == 0 {
        out.append(s);
        proof {
            assert(out@ =~= s@);
        }
        return out;
    }
    let mut i: usize = 0;
    proof {
        assert(s@.skip(0) =~= s@);
        assert(out@ + spec_replace(s@, pat@, rep@) =~= spec_replace(s@, pat@, rep@));
    }
    while i < n
        invariant
            n == s@.len(),
            p == pat@.len(),
            0 < p,
            i <= n,
            out@ + spec_replace(s@.skip(i as int), pat@, rep@) == spec_replace(s@, pat@, rep@),
        decreases n - i,
    {
        let ghost pre = out@;
        let ghost tail = s@.skip(i as int);
        if p <= n - i && matches_at(s, pat, i) {
            out.append(rep);
            proof {
                assert(tail.subrange(0, p as int) =~= s@.subrange(i as int, i as int + p as int));
                assert(tail.skip(p as int) =~= s@.skip(i as int + p as int));
                assert(spec_replace(tail, pat@, rep@) == rep@ + spec_replace(
                    s@.skip(i as int + p as int),
                    pat@,
                    rep@,
                ));
                assert((pre + rep@) + spec_replace(s@.skip(i as int + p as int), pat@, rep@) =~= pre
                    + spec_replace(tail, pat@, rep@));
            }
            i = i + p;
        } else {
            let piece = s.substring_char(i, i + 1);
            out.append(piece);
            proof {
                assert(piece@ =~= seq![s@[i as int]]);
                assert(tail.skip(1) =~= s@.skip(i as int + 1));
                if tail.len() < p {
                    assert(spec_replace(tail, pat@, rep@) == tail);
                    assert(spec_replace(s@.skip(i as int + 1), pat@, rep@) == s@.skip(i as int + 1));
                    assert((pre + piece@) + s@.skip(i as int + 1) =~= pre + tail);
                } else {
                    assert(tail.subrange(0, p as int) =~= s@.subrange(
                        i as int,
                        i as int + p as int,
                    ));
                    assert(tail.subrange(0, p as int) != pat@);
                    assert(spec_replace(tail, pat@, rep@) == seq![tail[0]] + spec_replace(
                        tail.skip(1),
                        pat@,
                        rep@,
                    ));
                    assert((pre + piece@) + spec_replace(s@.skip(i as int + 1), pat@, rep@) =~= pre
                        + spec_replace(tail, pat@, rep@));
                }
            }
            i = i + 1;
        }
    }
    proof {
        assert(s@.skip(n as int) =~= Seq::<char>::empty());
        assert(spec_replace(s@.skip(n as int), pat@, rep@) == Seq::<char>::empty());
        assert(out@ + Seq::<char>::empty() =~= out@);
    }
    out
}

/// Substitutes `values`, positionally aligned with `action.parameters`,
/// into `action.template`, in declaration order.
pub fn substitute_values(template: &String, params: &Vec<Parameter>, values: &Vec<String>) -> (out:
    String)
    requires
        values@.len() == params@.len(),
    ensures
        out@ == spec_substitute(template@, params@, string_views(values@)),
{
    let ghost all = string_views(values@);
    let mut cur = String::from_str(template.as_str());
    let n = params.len();
    let mut k: usize = 0;
    proof {
        assert(params@.skip(0) =~= params@);
        assert(all.skip(0) =~= all);
    }
    while k < n
        invariant
            n == params@.len(),
            values@.len() == n,
            all == string_views(values@),
            k <= n,
            spec_substitute(cur@, params@.skip(k as int), all.skip(k as int)) == spec_substitute(
                template@,
                params@,
                all,
            ),
        decreases n - k,
    {
        let ghost pre = cur@;
        let p = &params[k];
        let next = replace_all(cur.as_str(), p.placeholder.as_str(), values[k].as_str());
        cur = next;
        proof {
            let ps = params@.skip(k as int);
            let vs = all.skip(k as int);
            assert(ps[0] == params@[k as int]);
            assert(vs[0] == values@[k as int]@);
            assert(ps.skip(1) =~= params@.skip(k as int + 1));
            assert(vs.skip(1) =~= all.skip(k as int + 1));
            assert(spec_substitute(pre, ps, vs) == spec_substitute(
                cur@,
                params@.skip(k as int + 1),
                all.skip(k as int + 1),
            ));
        }
        k = k + 1;
    }
    proof {
        assert(params@.skip(n as int).len() == 0);
    }
    cur
}

/// Replacing a pattern that does not occur in a string leaves it
/// unchanged.
pub proof fn lemma_replace_noop(s: Seq<char>, pat: Seq<char>, rep: Seq<char>)
    requires
        !occurs(s, pat),
    ensures
        spec_replace(s, pat, rep) == s,
    decreases s.len(),
{
    if pat.len() == 0 || s.len() < pat.len() {
    } else if s.subrange(0, pat.len() as int) == pat {
        assert(match_at(s, pat, 0));
        assert(false);
    } else {
        assert(!occurs(s.skip(1), pat)) by {
            if occurs(s.skip(1), pat) {
                let i = choose|i: int| match_at(s.skip(1), pat, i);
                assert(s.skip(1).subrange(i, i + pat.len() as int) =~= s.subrange(
                    i + 1,
                    i + 1 + pat.len(),
                ));
                assert(match_at(s, pat, i + 1));
            }
        }
        lemma_replace_noop(s.skip(1), pat, rep);
        assert(seq![s[0]] + s.skip(1) =~= s);
    }
}

/// Substitution of all parameters splits at any point `k`: substitute the
/// first `k` parameters, then the rest into the intermediate string.
pub proof fn lemma_substitute_split(
    t: Seq<char>,
    params: Seq<Parameter>,
    values: Seq<Seq<char>>,
    k: int,
)
    requires
        0 <= k <= params.len(),
        values.len() == params.len(),
    ensures
        spec_substitute(t, params, values) == spec_substitute(
            spec_substitute(t, params.take(k), values.take(k)),
            params.skip(k),
            values.skip(k),
        ),
    decreases k,
{
    if k == 0 {
        assert(params.take(0).len() == 0);
        assert(params.skip(0) =~= params);
        assert(values.skip(0) =~= values);
    } else {
        let t1 = spec_replace(t, params[0].placeholder@, values[0]);
        lemma_substitute_split(t1, params.skip(1), values.skip(1), k - 1);
        assert(params.skip(1).take(k - 1) =~= params.take(k).skip(1));
        assert(values.skip(1).take(k - 1) =~= values.take(k).skip(1));
        assert(params.skip(1).skip(k - 1) =~= params.skip(k));
        assert(values.skip(1).skip(k - 1) =~= values.skip(k));
        assert(params.take(k)[0] == params[0]);
        assert(values.take(k)[0] == values[0]);
        assert(spec_substitute(t, params.take(k), values.take(k)) == spec_substitute(
            t1,
            params.take(k).skip(1),
            values.take(k).skip(1),
        ));
    }
}

/// A parameter whose placeholder does not occur in the partially
/// substituted command at its turn leaves the final output unchanged,
/// whatever value it carries.
pub proof fn lemma_no_placeholder_safety(
    t: Seq<char>,
    params: Seq<Parameter>,
    values1: Seq<Seq<char>>,
    values2: Seq<Seq<char>>,
    k: int,
)
    requires
        0 <= k < params.len(),
        values1.len() == params.len(),
        values2.len() == params.len(),
        forall|j: int| 0 <= j < params.len() && j != k ==> values1[j] == values2[j],
        !occurs(spec_substitute(t, params.take(k), values1.take(k)), params[k].placeholder@),
    ensures
        spec_substitute(t, params, values1) == spec_substitute(t, params, values2),
{
    let mid = spec_substitute(t, params.take(k), values1.take(k));
    assert(values1.take(k) =~= values2.take(k));
    lemma_substitute_split(t, params, values1, k);
    lemma_substitute_split(t, params, values2, k);
    lemma_replace_noop(mid, params[k].placeholder@, values1[k]);
    lemma_replace_noop(mid, params[k].placeholder@, values2[k]);
    let ps = params.skip(k);
    assert(ps[0] == params[k]);
    assert(values1.skip(k)[0] == values1[k]);
    assert(values2.skip(k)[0] == values2[k]);
    assert(spec_substitute(mid, ps, values1.skip(k)) == spec_substitute(
        mid,
        ps.skip(1),
        values1.skip(k).skip(1),
    ));
    assert(spec_substitute(mid, ps, values2.skip(k)) == spec_substitute(
        mid,
        ps.skip(1),
        values2.skip(k).skip(1),
    ));
    assert(values1.skip(k).skip(1) =~= values2.skip(k).skip(1));
}

} // verus!
