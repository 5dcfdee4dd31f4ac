//! The canonical parameter string of OAuth 1.0a: every name and value
//! percent-encoded, pairs sorted lexicographically by encoded name (and by
//! encoded value between equal names), written `name=value` and joined with
//! `&`.

use vstd::prelude::*;
use vstd::relations::{sorted_by, total_ordering};
use vstd::seq_lib::lemma_sorted_unique;
use crate::percent::pct_str;
use crate::text::{
    lex_leq, lemma_lex_leq_antisymmetric, lemma_lex_leq_reflexive, lemma_lex_leq_total,
    lemma_lex_leq_transitive, lex_leq_exec, push_char,
};

verus! {

/// The order of the canonical parameter string: by name, then by value.
pub open spec fn pair_leq(a: (Seq<char>, Seq<char>), b: (Seq<char>, Seq<char>)) -> bool {
    if a.0 == b.0 {
        lex_leq(a.1, b.1)
    } else {
        lex_leq(a.0, b.0)
    }
}

/// The order of [`pair_leq`] as a function value.
pub open spec fn pair_order() -> spec_fn((Seq<char>, Seq<char>), (Seq<char>, Seq<char>)) -> bool {
    |a: (Seq<char>, Seq<char>), b: (Seq<char>, Seq<char>)| pair_leq(a, b)
}

/// The order on encoded pairs is total: reflexive, antisymmetric,
/// transitive and strongly connected.
pub proof fn lemma_pair_order_total()
    ensures
        total_ordering(pair_order()),
{
    let leq = pair_order();
    assert forall|x: (Seq<char>, Seq<char>)| #[trigger] leq(x, x) by {
        lemma_lex_leq_reflexive(x.1);
    }
    assert forall|x: (Seq<char>, Seq<char>), y: (Seq<char>, Seq<char>)|
        #[trigger] leq(x, y) && #[trigger] leq(y, x) implies x == y by {
        if x.0 == y.0 {
            lemma_lex_leq_antisymmetric(x.1, y.1);
        } else {
            lemma_lex_leq_antisymmetric(x.0, y.0);
        }
    }
    assert forall|x: (Seq<char>, Seq<char>), y: (Seq<char>, Seq<char>), z: (Seq<char>, Seq<char>)|
        #[trigger] leq(x, y) && #[trigger] leq(y, z) implies leq(x, z) by {
        if x.0 == y.0 && y.0 == z.0 {
            lemma_lex_leq_transitive(x.1, y.1, z.1);
        } else if x.0 != y.0 && y.0 != z.0 {
            if x.0 == z.0 {
                lemma_lex_leq_antisymmetric(x.0, y.0);
            } else {
                lemma_lex_leq_transitive(x.0, y.0, z.0);
            }
        }
    }
    assert forall|x: (Seq<char>, Seq<char>), y: (Seq<char>, Seq<char>)|
        #[trigger] leq(x, y) || #[trigger] leq(y, x) by {
        if x.0 == y.0 {
            lemma_lex_leq_total(x.1, y.1);
        } else {
            lemma_lex_leq_total(x.0, y.0);
        }
    }
}

/// Any two pairs are comparable.
pub proof fn lemma_pair_leq_connected(x: (Seq<char>, Seq<char>), y: (Seq<char>, Seq<char>))
    ensures
        pair_leq(x, y) || pair_leq(y, x),
{
    if x.0 == y.0 {
        lemma_lex_leq_total(x.1, y.1);
    } else {
        lemma_lex_leq_total(x.0, y.0);
    }
}

/// The pair order is transitive.
pub proof fn lemma_pair_leq_transitive(
    x: (Seq<char>, Seq<char>),
    y: (Seq<char>, Seq<char>),
    z: (Seq<char>, Seq<char>),
)
    requires
        pair_leq(x, y),
        pair_leq(y, z),
    ensures
        pair_leq(x, z),
{
    if x.0 == y.0 && y.0 == z.0 {
        lemma_lex_leq_transitive(x.1, y.1, z.1);
    } else if x.0 != y.0 && y.0 != z.0 {
        if x.0 == z.0 {
            lemma_lex_leq_antisymmetric(x.0, y.0);
        } else {
            lemma_lex_leq_transitive(x.0, y.0, z.0);
        }
    }
}

/// The view of a vector of string pairs: each string replaced by its
/// character sequence.
pub open spec fn pair_views(s: Seq<(String, String)>) -> Seq<(Seq<char>, Seq<char>)> {
    s.map_values(|p: (String, String)| (p.0@, p.1@))
}

/// Compares two string pairs in the order of [`pair_leq`].
fn pair_leq_exec(a: &(String, String), b: &(String, String)) -> (r: bool)
    ensures
        r == pair_leq((a.0@, a.1@), (b.0@, b.1@)),
{
    if a.0 == b.0 {
        lex_leq_exec(a.1.as_str(), b.1.as_str())
    } else {
        lex_leq_exec(a.0.as_str(), b.0.as_str())
    }
}

/// Sorts string pairs into the order of [`pair_leq`] on their views,
/// keeping exactly the pairs that came in.
fn sort_pairs(v: Vec<(String, String)>) -> (r: Vec<(String, String)>)
    ensures
        sorted_by(pair_views(r@), pair_order()),
        pair_views(r@).to_multiset() == pair_views(v@).to_multiset(),
{
    broadcast use vstd::seq_lib::group_to_multiset_ensures;

    proof {
        lemma_pair_order_total();
    }
    let mut out: Vec<(String, String)> = Vec::new();
    let mut i: usize = 0;
    proof {
        assert(pair_views(v@.take(0)) =~= Seq::<(Seq<char>, Seq<char>)>::empty());
        assert(pair_views(out@) =~= Seq::<(Seq<char>, Seq<char>)>::empty());
        assert(pair_views(out@).to_multiset() =~= pair_views(v@.take(0)).to_multiset());
    }
    while i < v.len()
        invariant
            i <= v@.len(),
            sorted_by(pair_views(out@), pair_order()),
            pair_views(out@).to_multiset() == pair_views(v@.take(i as int)).to_multiset(),
        decreases v@.len() - i,
    {
        let name = v[i].0.clone();
        let val = v[i].1.clone();
        let p = (name, val);
        let ghost pv = (p.0@, p.1@);
        proof {
            assert(pv == pair_views(v@)[i as int]);
        }
        let mut j: usize = 0;
        loop
            invariant_except_break
                pv == (p.0@, p.1@),
                j <= out@.len(),
                forall|k: int| 0 <= k < j ==> pair_leq(#[trigger] pair_views(out@)[k], pv),
            ensures
                j <= out@.len(),
                forall|k: int| 0 <= k < j ==> pair_leq(#[trigger] pair_views(out@)[k], pv),
                j < out@.len() ==> !pair_leq(pair_views(out@)[j as int], pv),
            decreases out@.len() - j,
        {
            if j == out.len() {
                break;
            }
            let q = &out[j];
            let cont = pair_leq_exec(q, &p);
            proof {
                assert(*q == out@[j as int]);
                assert(q.0@ == out@[j as int].0@);
                assert(cont == pair_leq((q.0@, q.1@), (p.0@, p.1@)));
                assert(pair_views(out@)[j as int] == (out@[j as int].0@, out@[j as int].1@));
                assert(cont == pair_leq(pair_views(out@)[j as int], pv));
            }
            if !cont {
                break;
            }
            j = j + 1;
        }
        let ghost out_pre = out@;
        out.insert(j, p);
        i = i + 1;
        proof {
            assert(out@ == out_pre.insert(j as int, p));
            assert(pair_views(out@) =~= pair_views(out_pre).insert(j as int, pv));
            // sortedness of the new sequence
            let nv = pair_views(out@);
            let ov = pair_views(out_pre);
            // every element past the insertion point is at least the new pair
            assert forall|m: int| j <= m < ov.len() implies pair_leq(pv, #[trigger] ov[m]) by {
                assert(!pair_leq(ov[j as int], pv));
                lemma_pair_leq_connected(ov[j as int], pv);
                if m > j {
                    assert(pair_order()(ov[j as int], ov[m]));
                    lemma_pair_leq_transitive(pv, ov[j as int], ov[m]);
                }
            }
            assert forall|a: int, b: int| 0 <= a < b < nv.len() implies #[trigger] pair_order()(
                nv[a],
                nv[b],
            ) by {
                if b < j {
                    assert(nv[a] == ov[a] && nv[b] == ov[b]);
                    assert(pair_order()(ov[a], ov[b]));
                } else if a < j && b == j {
                    assert(nv[a] == ov[a] && nv[b] == pv);
                    assert(pair_leq(ov[a], pv));
                } else if a < j && b > j {
                    assert(nv[a] == ov[a] && nv[b] == ov[b - 1]);
                    assert(pair_leq(ov[a], pv));
                    assert(pair_leq(pv, ov[b - 1]));
                    lemma_pair_leq_transitive(ov[a], pv, ov[b - 1]);
                } else if a == j {
                    assert(nv[a] == pv && nv[b] == ov[b - 1]);
                    assert(pair_leq(pv, ov[b - 1]));
                } else {
                    assert(nv[a] == ov[a - 1] && nv[b] == ov[b - 1]);
                    assert(pair_order()(ov[a - 1], ov[b - 1]));
                }
            }
            // the multiset gained exactly the new pair
            vstd::seq_lib::to_multiset_insert(ov, j as int, pv);
            assert(pair_views(v@.take(i as int)) =~= pair_views(v@.take(i - 1)).push(pv));
            vstd::seq_lib::to_multiset_build(pair_views(v@.take(i - 1)), pv);
            assert(pair_views(out@).to_multiset() =~= pair_views(v@.take(i as int)).to_multiset());
        }
    }
    proof {
        assert(v@.take(v@.len() as int) =~= v@);
    }
    out
}

/// One pair written `name=value`.
pub open spec fn pair_text(p: (Seq<char>, Seq<char>)) -> Seq<char> {
    p.0 + seq!['='] + p.1
}

/// Pairs written `name=value` and joined with `&`.
pub open spec fn join_params(ps: Seq<(Seq<char>, Seq<char>)>) -> Seq<char>
    decreases ps.len(),
{
    if ps.len() == 0 {
        Seq::empty()
    } else if ps.len() == 1 {
        pair_text(ps[0])
    } else {
        pair_text(ps[0]) + seq!['&'] + join_params(ps.drop_first())
    }
}

/// Joining one more pair appends `&name=value` (just `name=value` when the
/// sequence was empty).
proof fn lemma_join_params_push(ps: Seq<(Seq<char>, Seq<char>)>, p: (Seq<char>, Seq<char>))
    ensures
        ps.len() == 0 ==> join_params(ps.push(p)) == pair_text(p),
        ps.len() > 0 ==> join_params(ps.push(p)) == join_params(ps) + seq!['&'] + pair_text(p),
    decreases ps.len(),
{
    let w = ps.push(p);
    if ps.len() == 0 {
        assert(w.len() == 1);
        assert(w[0] == p);
    } else if ps.len() == 1 {
        assert(w.len() == 2);
        assert(w[0] == ps[0]);
        assert(w.drop_first() =~= seq![p]);
        assert(join_params(w.drop_first()) == pair_text(p));
    } else {
        lemma_join_params_push(ps.drop_first(), p);
        assert(w.drop_first() =~= ps.drop_first().push(p));
        assert(w[0] == ps[0]);
        assert(join_params(w) == pair_text(ps[0]) + seq!['&'] + join_params(
            ps.drop_first().push(p),
        ));
        assert(pair_text(ps[0]) + seq!['&'] + (join_params(ps.drop_first()) + seq!['&']
            + pair_text(p)) =~= (pair_text(ps[0]) + seq!['&'] + join_params(ps.drop_first()))
            + seq!['&'] + pair_text(p));
    }
}

/// A pair with its name and value percent-encoded.
pub open spec fn enc_pair(p: (Seq<char>, Seq<char>)) -> (Seq<char>, Seq<char>) {
    (pct_str(p.0), pct_str(p.1))
}

/// All pairs percent-encoded.
pub open spec fn enc_pairs(ps: Seq<(Seq<char>, Seq<char>)>) -> Seq<(Seq<char>, Seq<char>)> {
    ps.map_values(|p: (Seq<char>, Seq<char>)| enc_pair(p))
}

/// The canonical parameter string of a parameter set: each name and value
/// percent-encoded, the pairs sorted by encoded name (then encoded value),
/// and joined `name=value` with `&` between pairs.
pub open spec fn spec_param_string(ps: Seq<(Seq<char>, Seq<char>)>) -> Seq<char> {
    join_params(enc_pairs(ps).sort_by(pair_order()))
}

/// Builds the canonical parameter string of the given pairs.
pub fn param_string(params: &Vec<(String, String)>) -> (r: String)
    ensures
        r@ == spec_param_string(pair_views(params@)),
{
    let n = params.len();
    let mut enc: Vec<(String, String)> = Vec::new();
    let mut i: usize = 0;
    proof {
        assert(pair_views(enc@) =~= enc_pairs(pair_views(params@.take(0))));
    }
    while i < n
        invariant
            n == params@.len(),
            i <= n,
            pair_views(enc@) == enc_pairs(pair_views(params@.take(i as int))),
        decreases n - i,
    {
        let en = crate::percent::to_string(params[i].0.as_str());
        let ev = crate::percent::to_string(params[i].1.as_str());
        let ghost enc_pre = enc@;
        enc.push((en, ev));
        i = i + 1;
        proof {
            assert(pair_views(enc@) =~= pair_views(enc_pre).push((en@, ev@)));
            assert(pair_views(params@.take(i as int)) =~= pair_views(params@.take(i - 1)).push(
                (params@[i - 1].0@, params@[i - 1].1@),
            ));
            assert(enc_pair((params@[i - 1].0@, params@[i - 1].1@)) == (en@, ev@));
            assert(pair_views(enc@) =~= enc_pairs(pair_views(params@.take(i as int))));
        }
    }
    proof {
        assert(params@.take(n as int) =~= params@);
    }
    let ghost encv = pair_views(enc@);
    let sorted = sort_pairs(enc);
    proof {
        lemma_pair_order_total();
        encv.lemma_sort_by_ensures(pair_order());
        lemma_sorted_unique(pair_views(sorted@), encv.sort_by(pair_order()), pair_order());
    }
    let m = sorted.len();
    let mut r = String::new();
    let mut i2: usize = 0;
    while i2 < m
        invariant
            m == sorted@.len(),
            i2 <= m,
            i2 == 0 ==> r@ =~= Seq::<char>::empty(),
            i2 > 0 ==> r@ == join_params(pair_views(sorted@).take(i2 as int)),
        decreases m - i2,
    {
        proof {
            lemma_join_params_push(
                pair_views(sorted@).take(i2 as int),
                pair_views(sorted@)[i2 as int],
            );
        }
        if i2 > 0 {
            push_char(&mut r, '&');
        }
        let q = &sorted[i2];
        r.append(q.0.as_str());
        push_char(&mut r, '=');
        r.append(q.1.as_str());
        i2 = i2 + 1;
        proof {
            assert(pair_views(sorted@).take(i2 as int) =~= pair_views(sorted@).take(
                i2 - 1,
            ).push(pair_views(sorted@)[i2 - 1]));
            assert(pair_text(pair_views(sorted@)[i2 - 1]) =~= sorted@[i2 - 1].0@ + seq!['=']
                + sorted@[i2 - 1].1@);
            if i2 == 1 {
                assert(r@ =~= pair_text(pair_views(sorted@)[0]));
            } else {
                assert(r@ =~= join_params(pair_views(sorted@).take(i2 - 1)) + seq!['&']
                    + pair_text(pair_views(sorted@)[i2 - 1]));
            }
        }
    }
    proof {
        assert(pair_views(sorted@).take(m as int) =~= pair_views(sorted@));
        if m == 0 {
            assert(join_params(pair_views(sorted@)) =~= Seq::<char>::empty());
        }
    }
    r
}

/// Mapping a function over two sequences with the same elements gives
/// sequences with the same elements.
proof fn lemma_map_values_multiset<A, B>(s1: Seq<A>, s2: Seq<A>, f: spec_fn(A) -> B)
    requires
        s1.to_multiset() == s2.to_multiset(),
    ensures
        s1.map_values(f).to_multiset() == s2.map_values(f).to_multiset(),
    decreases s1.len(),
{
    broadcast use vstd::seq_lib::group_to_multiset_ensures;
    broadcast use vstd::multiset::group_multiset_axioms;

    if s1.len() == 0 {
        assert(s1.to_multiset().len() == s1.len());
        assert(s2.to_multiset().len() == s2.len());
        assert(s2.len() == 0);
        assert(s1.map_values(f) =~= Seq::<B>::empty());
        assert(s2.map_values(f) =~= Seq::<B>::empty());
    } else {
        let x = s1[0];
        assert(s1.contains(x));
        assert(s1.to_multiset().contains(x));
        assert(s2.to_multiset().contains(x));
        assert(s2.contains(x));
        let j = choose|j: int| 0 <= j < s2.len() && s2[j] == x;
        assert(s1.remove(0) =~= s1.drop_first());
        assert(s1.drop_first().to_multiset() == s1.to_multiset().remove(x));
        assert(s2.remove(j).to_multiset() == s2.to_multiset().remove(x));
        lemma_map_values_multiset(s1.drop_first(), s2.remove(j), f);
        let m1 = s1.map_values(f);
        let m2 = s2.map_values(f);
        assert(m1.remove(0) =~= s1.drop_first().map_values(f));
        assert(m2.remove(j) =~= s2.remove(j).map_values(f));
        assert(m1[0] == f(x));
        assert(m2[j] == f(x));
        assert(m1.remove(0).to_multiset() == m1.to_multiset().remove(f(x)));
        assert(m2.remove(j).to_multiset() == m2.to_multiset().remove(f(x)));
        assert forall|b: B| m1.to_multiset().count(b) == m2.to_multiset().count(b) by {
            assert(m1.to_multiset().contains(f(x)));
            assert(m2.to_multiset().contains(f(x)));
            if b == f(x) {
                assert(m1.to_multiset().remove(f(x)).count(b) == m1.to_multiset().count(b) - 1);
                assert(m2.to_multiset().remove(f(x)).count(b) == m2.to_multiset().count(b) - 1);
            } else {
                assert(m1.to_multiset().remove(f(x)).count(b) == m1.to_multiset().count(b));
                assert(m2.to_multiset().remove(f(x)).count(b) == m2.to_multiset().count(b));
            }
        }
        assert(m1.to_multiset() =~= m2.to_multiset());
    }
}

/// Canonical-ordering law: the canonical parameter string depends only on
/// which parameters are present, never on the order in which they were
/// collected, because the pairs are sorted by percent-encoded name before
/// they are joined.
pub proof fn lemma_param_string_order_independent(
    ps1: Seq<(Seq<char>, Seq<char>)>,
    ps2: Seq<(Seq<char>, Seq<char>)>,
)
    requires
        ps1.to_multiset() == ps2.to_multiset(),
    ensures
        spec_param_string(ps1) == spec_param_string(ps2),
{
    lemma_map_values_multiset(ps1, ps2, |p: (Seq<char>, Seq<char>)| enc_pair(p));
    lemma_pair_order_total();
    enc_pairs(ps1).lemma_sort_by_ensures(pair_order());
    enc_pairs(ps2).lemma_sort_by_ensures(pair_order());
    lemma_sorted_unique(
        enc_pairs(ps1).sort_by(pair_order()),
        enc_pairs(ps2).sort_by(pair_order()),
        pair_order(),
    );
}

} // verus!
