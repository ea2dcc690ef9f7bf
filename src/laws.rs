//! Properties of the broker that relate several operations.
use vstd::prelude::*;
use crate::broker::{Event, closed_after, registry_after};
use crate::registry::{
    ConsumerId, RegistryModel, copies_to, lemma_push_fresh_no_duplicates, no_duplicate_entries,
    other_than, subscribed, subscribers_of, unsubscribed,
};

verus! {

broadcast use vstd::seq_lib::group_filter_ensures, vstd::seq_lib::group_to_multiset_ensures;

/// The frames that consumer `c` receives from a run of fan-outs, each given as its frame and
/// its targets: each frame once for every time `c` is among the targets, in fan-out order.
pub open spec fn received_by(batches: Seq<(Seq<char>, Seq<ConsumerId>)>, c: ConsumerId) -> Seq<Seq<char>>
    decreases batches.len(),
{
    if batches.len() == 0 {
        Seq::empty()
    } else {
        let last = batches.last();
        received_by(batches.drop_last(), c) + Seq::new(last.1.to_multiset().count(c), |i: int| last.0)
    }
}

proof fn lemma_single_copy(s: Seq<ConsumerId>, c: ConsumerId)
    requires
        s.no_duplicates(),
        s.contains(c),
    ensures
        s.to_multiset().count(c) == 1,
{
    s.lemma_multiset_has_no_duplicates();
}

/// Two distinct consumers subscribed to a producer that had none are exactly the
/// consumers its messages go to, while a producer nobody subscribed to reaches no one.
pub proof fn law_fan_out_reaches_exactly_subscribers(
    m: RegistryModel,
    p: Seq<char>,
    q: Seq<char>,
    c1: ConsumerId,
    c2: ConsumerId,
)
    requires
        c1 != c2,
        p != q,
        subscribers_of(m, p).len() == 0,
        subscribers_of(m, q).len() == 0,
    ensures
        subscribers_of(subscribed(subscribed(m, p, c1), p, c2), p) == seq![c1, c2],
        subscribers_of(subscribed(subscribed(m, p, c1), p, c2), q).len() == 0,
{
    let m1 = subscribed(m, p, c1);
    assert(subscribers_of(m1, p) =~= seq![c1]);
    assert(!seq![c1].contains(c2));
    assert(seq![c1].push(c2) =~= seq![c1, c2]);
}

/// Subscribing the same consumer to the same producer twice is the same as once, and a
/// message from that producer then reaches the consumer exactly once.
pub proof fn law_subscribe_idempotent(m: RegistryModel, p: Seq<char>, c: ConsumerId)
    requires
        no_duplicate_entries(m),
    ensures
        subscribed(subscribed(m, p, c), p, c) == subscribed(m, p, c),
        copies_to(subscribed(m, p, c), p, c) == 1,
{
    let s = subscribers_of(m, p);
    let m1 = subscribed(m, p, c);
    if !s.contains(c) {
        assert(s.push(c)[s.len() as int] == c);
    }
    assert(subscribers_of(m1, p).contains(c));
    assert(subscribed(m1, p, c) =~= m1);
    if !s.contains(c) {
        assert(s.no_duplicates()) by {
            if !m.contains_key(p) {
                assert(s =~= Seq::<ConsumerId>::empty());
            }
        }
        lemma_push_fresh_no_duplicates(s, c);
        assert(s.push(c)[s.len() as int] == c);
        lemma_single_copy(s.push(c), c);
    } else {
        lemma_single_copy(s, c);
    }
}

/// After a consumer is removed, no producer's messages go to it; and where it was a
/// producer's only subscriber, a consumer that subscribes afterwards is the only recipient.
pub proof fn law_unsubscribe_complete(m: RegistryModel, c: ConsumerId, p: Seq<char>, d: ConsumerId)
    ensures
        forall|k: Seq<char>| !(#[trigger] subscribers_of(unsubscribed(m, c), k)).contains(c),
        (forall|i: int| 0 <= i < subscribers_of(m, p).len() ==> subscribers_of(m, p)[i] == c)
            ==> subscribers_of(subscribed(unsubscribed(m, c), p, d), p) == seq![d],
{
    let u = unsubscribed(m, c);
    assert forall|k: Seq<char>| !(#[trigger] subscribers_of(u, k)).contains(c) by {
        if u.contains_key(k) {
            if m[k].filter(other_than(c)).contains(c) {
                let i = choose|i: int| 0 <= i < m[k].filter(other_than(c)).len() && m[k].filter(other_than(c))[i] == c;
                assert(other_than(c)(m[k].filter(other_than(c))[i]));
            }
        }
    }
    if forall|i: int| 0 <= i < subscribers_of(m, p).len() ==> subscribers_of(m, p)[i] == c {
        let f = subscribers_of(u, p);
        if f.len() > 0 {
            let x = f[0];
            assert(m[p].filter(other_than(c)).contains(x));
            m[p].lemma_filter_contains_rev(other_than(c), x);
            let j = choose|j: int| 0 <= j < m[p].len() && m[p][j] == x;
            assert(subscribers_of(m, p)[j] == c);
            assert(other_than(c)(f[0]));
        }
        assert(f =~= Seq::<ConsumerId>::empty());
        assert(!f.contains(d));
        assert(f.push(d) =~= seq![d]);
    }
}

/// Two messages from one producer reach a consumer subscribed to it once each, in the
/// order in which they were fanned out.
pub proof fn law_order_per_consumer(
    m: RegistryModel,
    p: Seq<char>,
    c: ConsumerId,
    f1: Seq<char>,
    f2: Seq<char>,
)
    requires
        no_duplicate_entries(m),
        subscribers_of(m, p).contains(c),
    ensures
        received_by(seq![(f1, subscribers_of(m, p)), (f2, subscribers_of(m, p))], c) == seq![f1, f2],
{
    let s = subscribers_of(m, p);
    lemma_single_copy(s, c);
    let b = seq![(f1, s), (f2, s)];
    assert(b.drop_last() =~= seq![(f1, s)]);
    assert(seq![(f1, s)].drop_last() =~= Seq::<(Seq<char>, Seq<ConsumerId>)>::empty());
    assert(received_by(Seq::<(Seq<char>, Seq<ConsumerId>)>::empty(), c) == Seq::<Seq<char>>::empty());
    assert(Seq::new(1, |i: int| f1) =~= seq![f1]);
    assert(Seq::new(1, |i: int| f2) =~= seq![f2]);
    assert(received_by(seq![(f1, s)], c) =~= seq![f1]);
    assert(received_by(b, c) =~= seq![f1, f2]);
}

/// A malformed or undecodable directive leaves the registry and the connection as they
/// were, so a valid directive right after it subscribes as if it had come alone.
pub proof fn law_malformed_directive_tolerated(m: RegistryModel, c: ConsumerId, p: String)
    ensures
        registry_after(m, c, false, Event::Malformed) == m,
        !closed_after(false, Event::Malformed),
        registry_after(m, c, false, Event::Undecodable) == m,
        !closed_after(false, Event::Undecodable),
        registry_after(registry_after(m, c, false, Event::Malformed), c, false, Event::Subscribe(p))
            == subscribed(m, p@, c),
{
}

} // verus!
