//! Texts in the order of their keys.

use vstd::prelude::*;
use crate::text::{before, lemma_text_before_total, lemma_text_before_trans, text_before};

verus! {

/// The models of pairs of a key and a text.
pub open spec fn pair_views(v: Seq<(String, String)>) -> Seq<(Seq<char>, Seq<char>)> {
    v.map_values(|p: (String, String)| (p.0@, p.1@))
}

/// Whether no key comes before an earlier one.
pub open spec fn in_key_order(s: Seq<(Seq<char>, Seq<char>)>) -> bool {
    forall|i: int, j: int|
        0 <= i < j < s.len() ==> !text_before((#[trigger] s[j]).0, (#[trigger] s[i]).0)
}

/// Whether `s` holds the pairs of `all`, in the order of their keys. Pairs with
/// the same key may come in any order.
pub open spec fn sorts(
    s: Seq<(Seq<char>, Seq<char>)>,
    all: Seq<(Seq<char>, Seq<char>)>,
) -> bool {
    in_key_order(s) && s.to_multiset() == all.to_multiset()
}

fn insert_pair(v: &mut Vec<(String, String)>, pair: (String, String))
    requires
        in_key_order(pair_views(old(v)@)),
    ensures
        in_key_order(pair_views(final(v)@)),
        pair_views(final(v)@).to_multiset() == pair_views(old(v)@).to_multiset().insert(
            (pair.0@, pair.1@),
        ),
{
    let ghost all = pair_views(v@);
    let ghost p = (pair.0@, pair.1@);
    let n: usize = v.len();
    let mut i: usize = 0;
    while i < n && !before(pair.0.as_str(), v[i].0.as_str())
        invariant
            i <= n == v@.len(),
            all == pair_views(v@),
            forall|j: int| 0 <= j < i ==> !text_before(pair.0@, (#[trigger] all[j]).0),
        decreases n - i,
    {
        assert(all[i as int].0 == v@[i as int].0@);
        i = i + 1;
    }
    proof {
        assert forall|j: int| i <= j < n implies text_before(p.0, (#[trigger] all[j]).0) by {
            assert(all[i as int].0 == v@[i as int].0@);
            lemma_text_before_total(all[i as int].0, all[j].0);
            if j > i && all[i as int].0 != all[j].0 {
                lemma_text_before_trans(p.0, all[i as int].0, all[j].0);
            }
        }
    }
    v.insert(i, pair);
    proof {
        broadcast use vstd::seq_lib::group_to_multiset_ensures;

        let now = pair_views(v@);
        assert(now =~= all.insert(i as int, p));
        assert forall|a: int, b: int| 0 <= a < b < now.len() implies !text_before(
            (#[trigger] now[b]).0,
            (#[trigger] now[a]).0,
        ) by {
            if a < i && b > i {
                assert(now[a] == all[a] && now[b] == all[b - 1]);
            } else if a > i {
                assert(now[a] == all[a - 1] && now[b] == all[b - 1]);
            } else if a == i {
                assert(now[b] == all[b - 1]);
                lemma_text_before_total(p.0, all[b - 1].0);
            } else {
                assert(now[a] == all[a]);
            }
        }
        assert(now.remove(i as int) =~= all);
        vstd::seq_lib::to_multiset_remove(now, i as int);
        assert(now.to_multiset() =~= all.to_multiset().insert(p));
    }
}

/// The pairs in the order of their keys.
pub fn in_order(pairs: Vec<(String, String)>) -> (r: Vec<(String, String)>)
    ensures
        sorts(pair_views(r@), pair_views(pairs@)),
{
    let ghost all = pair_views(pairs@);
    let mut rest = pairs;
    let mut out: Vec<(String, String)> = Vec::new();
    proof {
        broadcast use vstd::seq_lib::group_to_multiset_ensures;

        assert(pair_views(out@) =~= Seq::empty());
        assert(all.to_multiset() =~= pair_views(out@).to_multiset().add(all.to_multiset()));
    }
    while rest.len() > 0
        invariant
            in_key_order(pair_views(out@)),
            all.to_multiset() == pair_views(out@).to_multiset().add(
                pair_views(rest@).to_multiset(),
            ),
        decreases rest@.len(),
    {
        let ghost before_pop = pair_views(rest@);
        let ghost before_out = pair_views(out@);
        let pair = match rest.pop() {
            Some(p) => p,
            None => {
                return out;
            },
        };
        proof {
            broadcast use vstd::seq_lib::group_to_multiset_ensures;

            let last = before_pop.len() - 1;
            assert(pair_views(rest@) =~= before_pop.remove(last));
            vstd::seq_lib::to_multiset_remove(before_pop, last);
        }
        insert_pair(&mut out, pair);
        assert(pair_views(out@).to_multiset().add(pair_views(rest@).to_multiset())
            =~= before_out.to_multiset().add(before_pop.to_multiset()));
    }
    proof {
        broadcast use vstd::seq_lib::group_to_multiset_ensures;

        assert(pair_views(rest@) =~= Seq::empty());
        assert(pair_views(out@).to_multiset() =~= all.to_multiset());
    }
    out
}


/// The texts of pairs with a separator between them.
pub open spec fn joined_with(s: Seq<(Seq<char>, Seq<char>)>, sep: Seq<char>) -> Seq<char>
    decreases s.len(),
{
    if s.len() == 0 {
        Seq::empty()
    } else if s.len() == 1 {
        s[0].1
    } else {
        joined_with(s.drop_last(), sep) + sep + s.last().1
    }
}

/// The texts of pairs with a separator between them.
pub fn join(pairs: &Vec<(String, String)>, sep: &str) -> (r: String)
    ensures
        r@ == joined_with(pair_views(pairs@), sep@),
{
    let ghost all = pair_views(pairs@);
    let mut out = String::new();
    let mut i: usize = 0;
    assert(all.take(0) =~= Seq::empty());
    assert(out@ =~= Seq::empty());
    while i < pairs.len()
        invariant
            i <= pairs@.len(),
            all == pair_views(pairs@),
            out@ == joined_with(all.take(i as int), sep@),
        decreases pairs@.len() - i,
    {
        assert(all.take(i + 1).drop_last() =~= all.take(i as int));
        assert(all.take(i + 1).last() == all[i as int]);
        if i > 0 {
            out.append(sep);
        }
        out.append(pairs[i].1.as_str());
        assert(out@ =~= joined_with(all.take(i + 1), sep@));
        i = i + 1;
    }
    assert(all.take(i as int) =~= all);
    out
}

} // verus!
