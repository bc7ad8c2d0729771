//! Request parameters: encoding, sorting and joining them.

use vstd::prelude::*;
use vstd::multiset::Multiset;
use vstd::relations::*;
use vstd::seq_lib::*;
use crate::encoding::{encode, percent_encoded};
use crate::order::{lemma_pair_le_transitive, lemma_pair_order_total, pair_le, pair_no_later, pair_order};
use crate::text::append;

verus! {

/// The names and values of a list of parameters, as byte strings.
pub open spec fn pairs_view(v: Seq<(Vec<u8>, Vec<u8>)>) -> Seq<(Seq<u8>, Seq<u8>)> {
    Seq::new(v.len(), |i: int| (v[i].0@, v[i].1@))
}

/// Each name and each value percent-encoded, in the order given.
pub open spec fn encoded_pairs(ps: Seq<(Seq<u8>, Seq<u8>)>) -> Seq<(Seq<u8>, Seq<u8>)> {
    Seq::new(ps.len(), |i: int| (percent_encoded(ps[i].0), percent_encoded(ps[i].1)))
}

/// `name=value`.
pub open spec fn pair_text(p: (Seq<u8>, Seq<u8>)) -> Seq<u8> {
    p.0 + seq![0x3Du8] + p.1
}

/// The pairs as `name=value`, with `&` between them.
pub open spec fn joined(ps: Seq<(Seq<u8>, Seq<u8>)>) -> Seq<u8>
    decreases ps.len(),
{
    if ps.len() == 0 {
        Seq::empty()
    } else if ps.len() == 1 {
        pair_text(ps[0])
    } else {
        joined(ps.drop_last()) + seq![0x26u8] + pair_text(ps.last())
    }
}

/// The normalized parameter string: every pair encoded, the encoded pairs
/// sorted by name and then by value, and joined.
pub open spec fn normalized(ps: Seq<(Seq<u8>, Seq<u8>)>) -> Seq<u8> {
    joined(encoded_pairs(ps).sort_by(pair_order()))
}

/// A query string or form body: the encoded pairs in the order given, joined,
/// after `first` where there is any pair.
pub open spec fn query_text(ps: Seq<(Seq<u8>, Seq<u8>)>, first: Option<u8>) -> Seq<u8> {
    if ps.len() == 0 {
        Seq::empty()
    } else {
        match first {
            Some(c) => seq![c] + joined(encoded_pairs(ps)),
            None => joined(encoded_pairs(ps)),
        }
    }
}

/// Percent-encodes every name and value.
pub fn encode_pairs(params: &Vec<(Vec<u8>, Vec<u8>)>) -> (res: Vec<(Vec<u8>, Vec<u8>)>)
    ensures
        pairs_view(res@) == encoded_pairs(pairs_view(params@)),
{
    let mut res: Vec<(Vec<u8>, Vec<u8>)> = Vec::new();
    let mut i: usize = 0;
    while i < params.len()
        invariant
            i <= params@.len(),
            res@.len() == i,
            forall|k: int|
                0 <= k < i ==> res@[k].0@ == percent_encoded(#[trigger] params@[k].0@) && res@[k].1@
                    == percent_encoded(params@[k].1@),
        decreases params@.len() - i,
    {
        let name = encode(params[i].0.as_slice());
        let value = encode(params[i].1.as_slice());
        res.push((name, value));
        i += 1;
    }
    assert(pairs_view(res@) =~= encoded_pairs(pairs_view(params@)));
    res
}

/// An empty list holds nothing.
proof fn lemma_empty_to_multiset(s: Seq<(Seq<u8>, Seq<u8>)>)
    requires
        s.len() == 0,
    ensures
        s.to_multiset() == Multiset::<(Seq<u8>, Seq<u8>)>::empty(),
{
    broadcast use vstd::multiset::group_multiset_axioms;
    to_multiset_len(s);
    vstd::multiset::lemma_multiset_empty_len(s.to_multiset());
}

/// Moving a pair from the end of one list into another keeps what the two
/// hold together.
proof fn lemma_moved_pair(
    out0: Seq<(Seq<u8>, Seq<u8>)>,
    out1: Seq<(Seq<u8>, Seq<u8>)>,
    rest0: Seq<(Seq<u8>, Seq<u8>)>,
    rest1: Seq<(Seq<u8>, Seq<u8>)>,
    j: int,
    x: (Seq<u8>, Seq<u8>),
)
    requires
        0 <= j <= out0.len(),
        out1 == out0.insert(j, x),
        rest0 == rest1.push(x),
    ensures
        out1.to_multiset().add(rest1.to_multiset()) == out0.to_multiset().add(rest0.to_multiset()),
{
    broadcast use vstd::multiset::group_multiset_axioms;
    to_multiset_insert(out0, j, x);
    to_multiset_build(rest1, x);
    assert(out0.to_multiset().insert(x).add(rest1.to_multiset()) =~= out0.to_multiset().add(
        rest1.to_multiset().insert(x),
    ));
}

/// Sorts pairs by name and then by value.
pub fn sort_pairs(pairs: Vec<(Vec<u8>, Vec<u8>)>) -> (res: Vec<(Vec<u8>, Vec<u8>)>)
    ensures
        pairs_view(res@) == pairs_view(pairs@).sort_by(pair_order()),
{
    broadcast use {to_multiset_insert, to_multiset_build, vstd::multiset::group_multiset_axioms};
    let ghost all = pairs_view(pairs@);
    let mut rest = pairs;
    let mut out: Vec<(Vec<u8>, Vec<u8>)> = Vec::new();
    proof {
        lemma_empty_to_multiset(pairs_view(out@));
        assert(pairs_view(out@).to_multiset().add(pairs_view(rest@).to_multiset())
            =~= all.to_multiset());
    }
    while rest.len() > 0
        invariant
            sorted_by(pairs_view(out@), pair_order()),
            pairs_view(out@).to_multiset().add(pairs_view(rest@).to_multiset())
                == all.to_multiset(),
        decreases rest@.len(),
    {
        let ghost rest_before = pairs_view(rest@);
        let ghost out_before = pairs_view(out@);
        let p = rest.pop().unwrap();
        let ghost pv = (p.0@, p.1@);
        assert(rest_before =~= pairs_view(rest@).push(pv));
        let mut j: usize = 0;
        while j < out.len() && pair_no_later(&out[j], &p)
            invariant
                j <= out@.len(),
                pv == (p.0@, p.1@),
                forall|k: int| 0 <= k < j ==> pair_le(#[trigger] pairs_view(out@)[k], pv),
            decreases out@.len() - j,
        {
            j += 1;
        }
        out.insert(j, p);
        proof {
            let now = pairs_view(out@);
            assert(now =~= out_before.insert(j as int, pv));
            lemma_pair_order_total();
            assert forall|a: int, b: int| 0 <= a < b < now.len() implies #[trigger] pair_order()(
                now[a],
                now[b],
            ) by {
                if b < j {
                    assert(pair_order()(out_before[a], out_before[b]));
                } else if b == j {
                    assert(pair_le(out_before[a], pv));
                } else if a < j {
                    assert(pair_order()(out_before[a], out_before[b - 1]));
                } else if a == j {
                    assert(!pair_le(out_before[j as int], pv));
                    assert(pair_order()(out_before[j as int], pv) || pair_order()(
                        pv,
                        out_before[j as int],
                    ));
                    if b - 1 > j {
                        assert(pair_order()(out_before[j as int], out_before[b - 1]));
                        lemma_pair_le_transitive(pv, out_before[j as int], out_before[b - 1]);
                    }
                } else {
                    assert(pair_order()(out_before[a - 1], out_before[b - 1]));
                }
            }
            lemma_moved_pair(out_before, now, rest_before, pairs_view(rest@), j as int, pv);
        }
    }
    proof {
        lemma_empty_to_multiset(pairs_view(rest@));
        assert(pairs_view(out@).to_multiset() =~= all.to_multiset());
        lemma_pair_order_total();
        all.lemma_sort_by_ensures(pair_order());
        lemma_sorted_unique(pairs_view(out@), all.sort_by(pair_order()), pair_order());
    }
    out
}

/// Joins pairs as `name=value` with `&` between them.
pub fn join_pairs(pairs: &Vec<(Vec<u8>, Vec<u8>)>) -> (res: Vec<u8>)
    ensures
        res@ == joined(pairs_view(pairs@)),
{
    let mut res: Vec<u8> = Vec::new();
    let mut i: usize = 0;
    while i < pairs.len()
        invariant
            i <= pairs@.len(),
            res@ == joined(pairs_view(pairs@).subrange(0, i as int)),
        decreases pairs@.len() - i,
    {
        let ghost before = pairs_view(pairs@).subrange(0, i as int);
        let ghost after = pairs_view(pairs@).subrange(0, i + 1);
        if i > 0 {
            res.push(0x26u8);
        }
        append(&mut res, pairs[i].0.as_slice());
        res.push(0x3Du8);
        append(&mut res, pairs[i].1.as_slice());
        proof {
            assert(after.drop_last() =~= before);
            assert(after.last() == (pairs@[i as int].0@, pairs@[i as int].1@));
            assert(res@ =~= joined(after));
        }
        i += 1;
    }
    assert(pairs_view(pairs@).subrange(0, i as int) =~= pairs_view(pairs@));
    res
}

/// Builds the normalized parameter string of the protocol parameters together
/// with the request's own.
pub fn normalize(oauth_params: &Vec<(Vec<u8>, Vec<u8>)>, request_params: &Vec<(Vec<u8>, Vec<u8>)>) -> (res:
    Vec<u8>)
    ensures
        res@ == normalized(pairs_view(oauth_params@) + pairs_view(request_params@)),
{
    let mut all = encode_pairs(oauth_params);
    let mut more = encode_pairs(request_params);
    let ghost first = all@;
    let ghost second = more@;
    all.append(&mut more);
    proof {
        let want = encoded_pairs(pairs_view(oauth_params@) + pairs_view(request_params@));
        assert(all@ =~= first + second);
        assert(pairs_view(first).len() == first.len());
        assert(pairs_view(second).len() == second.len());
        assert(first.len() == oauth_params@.len());
        assert(second.len() == request_params@.len());
        assert forall|k: int| 0 <= k < want.len() implies pairs_view(all@)[k] == want[k] by {
            if k < first.len() {
                assert(pairs_view(first)[k] == encoded_pairs(pairs_view(oauth_params@))[k]);
            } else {
                assert(pairs_view(second)[k - first.len()] == encoded_pairs(
                    pairs_view(request_params@),
                )[k - first.len()]);
            }
        }
        assert(pairs_view(all@) =~= encoded_pairs(
            pairs_view(oauth_params@) + pairs_view(request_params@),
        ));
    }
    let sorted = sort_pairs(all);
    join_pairs(&sorted)
}

/// Builds a query string or a form body from the parameters, in their order.
/// With no parameters the result is empty; otherwise it starts with
/// `first_char`, where one is given.
pub fn create_query(parameters: Option<&Vec<(Vec<u8>, Vec<u8>)>>, first_char: Option<u8>) -> (res: Vec<u8>)
    ensures
        res@ == match parameters {
            Some(ps) => query_text(pairs_view(ps@), first_char),
            None => Seq::<u8>::empty(),
        },
{
    let prms = match parameters {
        None => {
            return Vec::new();
        },
        Some(p) => p,
    };
    if prms.len() == 0 {
        return Vec::new();
    }
    let encoded = encode_pairs(prms);
    let body = join_pairs(&encoded);
    let mut res: Vec<u8> = Vec::new();
    match first_char {
        None => {},
        Some(ch) => {
            res.push(ch);
        },
    }
    append(&mut res, body.as_slice());
    proof {
        assert(res@ =~= query_text(pairs_view(prms@), first_char));
    }
    res
}

/// Two lists that hold the same pairs, each as often as the other, hold the
/// same encoded pairs.
pub proof fn lemma_encoded_pairs_multiset(a: Seq<(Seq<u8>, Seq<u8>)>, b: Seq<(Seq<u8>, Seq<u8>)>)
    requires
        a.to_multiset() == b.to_multiset(),
    ensures
        encoded_pairs(a).to_multiset() == encoded_pairs(b).to_multiset(),
    decreases a.len(),
{
    broadcast use {
        to_multiset_insert,
        to_multiset_build,
        to_multiset_remove,
        to_multiset_len,
        to_multiset_contains,
        vstd::multiset::group_multiset_axioms,
    };
    to_multiset_len(a);
    to_multiset_len(b);
    if a.len() == 0 {
        assert(encoded_pairs(a) =~= encoded_pairs(b));
    } else {
        let x = a.last();
        assert(a =~= a.drop_last().push(x));
        assert(a.to_multiset().count(x) > 0);
        assert(b.contains(x));
        let k = choose|k: int| 0 <= k < b.len() && b[k] == x;
        let b1 = b.remove(k);
        assert(b =~= b1.insert(k, x));
        assert(a.drop_last().to_multiset() =~= a.to_multiset().remove(x));
        assert(b1.to_multiset() =~= b.to_multiset().remove(x));
        lemma_encoded_pairs_multiset(a.drop_last(), b1);
        let ex = (percent_encoded(x.0), percent_encoded(x.1));
        assert(encoded_pairs(a) =~= encoded_pairs(a.drop_last()).push(ex));
        assert(encoded_pairs(b) =~= encoded_pairs(b1).insert(k, ex));
    }
}

/// The normalized parameter string depends on which pairs are given and how
/// often, not on the order in which they are given.
pub proof fn lemma_normalized_order_independent(a: Seq<(Seq<u8>, Seq<u8>)>, b: Seq<(Seq<u8>, Seq<u8>)>)
    requires
        a.to_multiset() == b.to_multiset(),
    ensures
        normalized(a) == normalized(b),
{
    lemma_encoded_pairs_multiset(a, b);
    lemma_pair_order_total();
    let ea = encoded_pairs(a);
    let eb = encoded_pairs(b);
    ea.lemma_sort_by_ensures(pair_order());
    eb.lemma_sort_by_ensures(pair_order());
    lemma_sorted_unique(ea.sort_by(pair_order()), eb.sort_by(pair_order()), pair_order());
}

/// The pairs of a normalized parameter string are in order: none comes before
/// one that sorts before it, and they are the encoded pairs that were given.
pub proof fn lemma_normalized_pairs_sorted(ps: Seq<(Seq<u8>, Seq<u8>)>)
    ensures
        sorted_by(encoded_pairs(ps).sort_by(pair_order()), pair_order()),
        encoded_pairs(ps).sort_by(pair_order()).to_multiset() == encoded_pairs(ps).to_multiset(),
{
    lemma_pair_order_total();
    encoded_pairs(ps).lemma_sort_by_ensures(pair_order());
}

/// Every pair that is given is in the normalized parameter string: its
/// encoded form is one of the sorted pairs.
pub proof fn lemma_normalized_holds_each_pair(ps: Seq<(Seq<u8>, Seq<u8>)>, i: int)
    requires
        0 <= i < ps.len(),
    ensures
        encoded_pairs(ps).sort_by(pair_order()).contains(
            (percent_encoded(ps[i].0), percent_encoded(ps[i].1)),
        ),
{
    let given = encoded_pairs(ps);
    let x = (percent_encoded(ps[i].0), percent_encoded(ps[i].1));
    assert(given[i] == x);
    assert(given.contains(x));
    lemma_pair_order_total();
    given.lemma_sort_by_ensures(pair_order());
    to_multiset_contains(given, x);
    to_multiset_contains(given.sort_by(pair_order()), x);
}

/// The pairs `b=2`, `a=2`, `a=1`, given in that order, are normalized to
/// `a=1&a=2&b=2`.
pub proof fn lemma_normalized_example()
    ensures
        normalized(
            seq![
                (seq![0x62u8], seq![0x32u8]),
                (seq![0x61u8], seq![0x32u8]),
                (seq![0x61u8], seq![0x31u8]),
            ],
        ) == seq![0x61u8, 0x3Du8, 0x31u8, 0x26u8, 0x61u8, 0x3Du8, 0x32u8, 0x26u8, 0x62u8, 0x3Du8, 0x32u8],
{
    broadcast use {to_multiset_build, vstd::multiset::group_multiset_axioms};
    let a = seq![0x61u8];
    let b = seq![0x62u8];
    let one = seq![0x31u8];
    let two = seq![0x32u8];
    let given = seq![(b, two), (a, two), (a, one)];
    let want = seq![(a, one), (a, two), (b, two)];
    crate::encoding::lemma_encode_unreserved_is_identity(a);
    crate::encoding::lemma_encode_unreserved_is_identity(b);
    crate::encoding::lemma_encode_unreserved_is_identity(one);
    crate::encoding::lemma_encode_unreserved_is_identity(two);
    assert(encoded_pairs(given) =~= given);
    assert(a[0] != b[0]);
    assert(one[0] != two[0]);
    assert(pair_le(want[0], want[1]));
    assert(pair_le(want[1], want[2]));
    assert(pair_le(want[0], want[2]));
    assert(sorted_by(want, pair_order()));
    let none = Seq::<(Seq<u8>, Seq<u8>)>::empty();
    assert(given =~= none.push((b, two)).push((a, two)).push((a, one)));
    assert(want =~= none.push((a, one)).push((a, two)).push((b, two)));
    assert(given.to_multiset() =~= want.to_multiset());
    lemma_pair_order_total();
    given.lemma_sort_by_ensures(pair_order());
    lemma_sorted_unique(want, given.sort_by(pair_order()), pair_order());
    let two_pairs = want.drop_last();
    assert(two_pairs.drop_last().len() == 1);
    assert(joined(two_pairs.drop_last()) =~= pair_text((a, one)));
    assert(joined(two_pairs) =~= pair_text((a, one)) + seq![0x26u8] + pair_text((a, two)));
    assert(joined(want) =~= joined(two_pairs) + seq![0x26u8] + pair_text((b, two)));
    assert(joined(want) =~= seq![
        0x61u8,
        0x3Du8,
        0x31u8,
        0x26u8,
        0x61u8,
        0x3Du8,
        0x32u8,
        0x26u8,
        0x62u8,
        0x3Du8,
        0x32u8,
    ]);
}

} // verus!
