//! The subscription registry: which consumers listen to which producer.
use vstd::prelude::*;

verus! {

/// Identity of one consumer outbox, assigned when its connection opens.
pub type ConsumerId = u64;

/// Abstract registry: producer id to its subscribed consumers, in subscription order.
pub type RegistryModel = Map<Seq<char>, Seq<ConsumerId>>;

/// The consumers that a message from `p` goes to.
pub open spec fn subscribers_of(m: RegistryModel, p: Seq<char>) -> Seq<ConsumerId> {
    if m.contains_key(p) {
        m[p]
    } else {
        Seq::empty()
    }
}

/// The registry after `c` subscribes to `p`: a repeated subscription changes nothing.
pub open spec fn subscribed(m: RegistryModel, p: Seq<char>, c: ConsumerId) -> RegistryModel {
    let s = subscribers_of(m, p);
    m.insert(p, if s.contains(c) { s } else { s.push(c) })
}

/// The registry after `c` is removed from every producer; producers stay as keys.
pub open spec fn unsubscribed(m: RegistryModel, c: ConsumerId) -> RegistryModel {
    Map::new(|k: Seq<char>| m.contains_key(k), |k: Seq<char>| m[k].filter(other_than(c)))
}

/// Keeps every consumer but `c`.
pub open spec fn other_than(c: ConsumerId) -> spec_fn(ConsumerId) -> bool {
    |x: ConsumerId| x != c
}

/// No producer lists a consumer twice.
pub open spec fn no_duplicate_entries(m: RegistryModel) -> bool {
    forall|k: Seq<char>| #[trigger] m.contains_key(k) ==> m[k].no_duplicates()
}

/// How many copies of one message for `p` reach `c`.
pub open spec fn copies_to(m: RegistryModel, p: Seq<char>, c: ConsumerId) -> nat {
    subscribers_of(m, p).to_multiset().count(c)
}

struct Entry {
    producer: String,
    consumers: Vec<ConsumerId>,
}

/// Map from producer id to the consumers subscribed to it.
pub struct Registry {
    entries: Vec<Entry>,
    model: Ghost<RegistryModel>,
}

impl View for Registry {
    type V = RegistryModel;

    closed spec fn view(&self) -> RegistryModel {
        self.model@
    }
}

impl Registry {
    /// The entries agree with the model, producers are distinct and no list holds a duplicate.
    pub closed spec fn wf(&self) -> bool {
        &&& forall|i: int|
            0 <= i < self.entries@.len() ==> {
                &&& #[trigger] self.model@.contains_key(self.entries@[i].producer@)
                &&& self.model@[self.entries@[i].producer@] == self.entries@[i].consumers@
            }
        &&& forall|k: Seq<char>|
            #[trigger] self.model@.contains_key(k) ==> exists|i: int|
                0 <= i < self.entries@.len() && #[trigger] self.entries@[i].producer@ == k
        &&& forall|i: int, j: int|
            0 <= i < j < self.entries@.len() ==> self.entries@[i].producer@
                != self.entries@[j].producer@
        &&& no_duplicate_entries(self.model@)
    }

    /// A well-formed registry lists no consumer twice under one producer.
    pub proof fn lemma_no_duplicate_entries(&self)
        requires
            self.wf(),
        ensures
            no_duplicate_entries(self@),
    {
    }

    pub fn new() -> (r: Registry)
        ensures
            r.wf(),
            r@ == RegistryModel::empty(),
    {
        Registry { entries: Vec::new(), model: Ghost(Map::empty()) }
    }

    fn position(&self, producer: &String) -> (r: Option<usize>)
        requires
            self.wf(),
        ensures
            match r {
                Some(i) => i < self.entries@.len() && self.entries@[i as int].producer@
                    == producer@,
                None => !self@.contains_key(producer@),
            },
    {
        let mut i: usize = 0;
        while i < self.entries.len()
            invariant
                self.wf(),
                i <= self.entries@.len(),
                forall|j: int| 0 <= j < i ==> self.entries@[j].producer@ != producer@,
            decreases self.entries@.len() - i,
        {
            if self.entries[i].producer == *producer {
                return Some(i);
            }
            i = i + 1;
        }
        None
    }

    /// Registers `consumer` for messages of `producer`, at most once.
    pub fn subscribe(&mut self, producer: &String, consumer: ConsumerId)
        requires
            old(self).wf(),
        ensures
            final(self).wf(),
            final(self)@ == subscribed(old(self)@, producer@, consumer),
    {
        let ghost m = self.model@;
        match self.position(producer) {
            Some(i) => {
                if !contains_id(&self.entries[i].consumers, consumer) {
                    self.entries[i].consumers.push(consumer);
                }
                let ghost s = subscribers_of(m, producer@);
                self.model = Ghost(m.insert(producer@, if s.contains(consumer) { s } else { s.push(consumer) }));
                proof {
                    assert(self.entries@[i as int].consumers@ == self.model@[producer@]);
                    assert forall|k: Seq<char>| #[trigger] self.model@.contains_key(k) implies exists|j: int|
                        0 <= j < self.entries@.len() && #[trigger] self.entries@[j].producer@ == k by {
                        assert(m.contains_key(k));
                        let j = choose|j: int| 0 <= j < old(self).entries@.len() && #[trigger] old(self).entries@[j].producer@ == k;
                        assert(self.entries@[j].producer@ == k);
                    }
                    if !s.contains(consumer) {
                        lemma_push_fresh_no_duplicates(s, consumer);
                    }
                }
            }
            None => {
                let mut consumers: Vec<ConsumerId> = Vec::new();
                consumers.push(consumer);
                self.entries.push(Entry { producer: producer.clone(), consumers });
                self.model = Ghost(m.insert(producer@, seq![consumer]));
                proof {
                    assert(seq![consumer] =~= Seq::<ConsumerId>::empty().push(consumer));
                    let n = old(self).entries@.len() as int;
                    assert forall|k: Seq<char>| #[trigger] self.model@.contains_key(k) implies exists|j: int|
                        0 <= j < self.entries@.len() && #[trigger] self.entries@[j].producer@ == k by {
                        if k == producer@ {
                            assert(self.entries@[n].producer@ == k);
                        } else {
                            assert(m.contains_key(k));
                            let j = choose|j: int| 0 <= j < old(self).entries@.len() && #[trigger] old(self).entries@[j].producer@ == k;
                            assert(self.entries@[j].producer@ == k);
                        }
                    }
                }
            }
        }
    }

    /// Removes `consumer` from every producer's list; producers remain, possibly with no consumer.
    pub fn unsubscribe(&mut self, consumer: ConsumerId)
        requires
            old(self).wf(),
        ensures
            final(self).wf(),
            final(self)@ == unsubscribed(old(self)@, consumer),
    {
        let ghost m = self.model@;
        let ghost old_entries = self.entries@;
        let mut i: usize = 0;
        while i < self.entries.len()
            invariant
                self.model@ == m,
                self.entries@.len() == old_entries.len(),
                i <= old_entries.len(),
                forall|j: int|
                    0 <= j < old_entries.len() ==> #[trigger] self.entries@[j].producer@
                        == old_entries[j].producer@,
                forall|j: int|
                    0 <= j < i ==> #[trigger] self.entries@[j].consumers@ == old_entries[j].consumers@.filter(
                        other_than(consumer),
                    ),
                forall|j: int|
                    i <= j < old_entries.len() ==> #[trigger] self.entries@[j].consumers@
                        == old_entries[j].consumers@,
            decreases old_entries.len() - i,
        {
            let kept = without(&self.entries[i].consumers, consumer);
            self.entries[i].consumers = kept;
            i = i + 1;
        }
        self.model = Ghost(unsubscribed(m, consumer));
        proof {
            let n = unsubscribed(m, consumer);
            assert forall|j: int| 0 <= j < self.entries@.len() implies {
                &&& #[trigger] n.contains_key(self.entries@[j].producer@)
                &&& n[self.entries@[j].producer@] == self.entries@[j].consumers@
            } by {
                assert(old_entries[j].producer@ == self.entries@[j].producer@);
            }
            assert forall|k: Seq<char>| #[trigger] n.contains_key(k) implies exists|j: int|
                0 <= j < self.entries@.len() && #[trigger] self.entries@[j].producer@ == k by {
                assert(m.contains_key(k));
                let j = choose|j: int| 0 <= j < old_entries.len() && #[trigger] old_entries[j].producer@ == k;
                assert(self.entries@[j].producer@ == k);
            }
            assert forall|k: Seq<char>| #[trigger] n.contains_key(k) implies n[k].no_duplicates() by {
                lemma_filter_no_duplicates(m[k], consumer);
            }
        }
    }

    /// The consumers subscribed to `producer`, in subscription order.
    pub fn subscribers(&self, producer: &String) -> (r: Vec<ConsumerId>)
        requires
            self.wf(),
        ensures
            r@ == subscribers_of(self@, producer@),
    {
        match self.position(producer) {
            Some(i) => {
                let src = &self.entries[i].consumers;
                let mut out: Vec<ConsumerId> = Vec::new();
                let mut j: usize = 0;
                while j < src.len()
                    invariant
                        j <= src@.len(),
                        out@ == src@.take(j as int),
                    decreases src@.len() - j,
                {
                    out.push(src[j]);
                    j = j + 1;
                    assert(out@ =~= src@.take(j as int));
                }
                assert(out@ =~= src@);
                out
            }
            None => Vec::new(),
        }
    }
}

fn contains_id(v: &Vec<ConsumerId>, c: ConsumerId) -> (r: bool)
    ensures
        r == v@.contains(c),
{
    let mut i: usize = 0;
    while i < v.len()
        invariant
            i <= v@.len(),
            forall|j: int| 0 <= j < i ==> v@[j] != c,
        decreases v@.len() - i,
    {
        if v[i] == c {
            assert(v@[i as int] == c);
            return true;
        }
        i = i + 1;
    }
    false
}

fn without(v: &Vec<ConsumerId>, c: ConsumerId) -> (r: Vec<ConsumerId>)
    ensures
        r@ == v@.filter(other_than(c)),
{
    let mut out: Vec<ConsumerId> = Vec::new();
    let mut i: usize = 0;
    while i < v.len()
        invariant
            i <= v@.len(),
            out@ == v@.take(i as int).filter(other_than(c)),
        decreases v@.len() - i,
    {
        proof {
            reveal(Seq::filter);
            assert(v@.take(i + 1).drop_last() =~= v@.take(i as int));
        }
        if v[i] != c {
            out.push(v[i]);
        }
        i = i + 1;
    }
    assert(v@.take(v@.len() as int) =~= v@);
    out
}

proof fn lemma_filter_no_duplicates(s: Seq<ConsumerId>, c: ConsumerId)
    requires
        s.no_duplicates(),
    ensures
        s.filter(other_than(c)).no_duplicates(),
    decreases s.len(),
{
    reveal(Seq::filter);
    if s.len() > 0 {
        let d = s.drop_last();
        assert(d.no_duplicates()) by {
            assert forall|i: int, j: int| 0 <= i < d.len() && 0 <= j < d.len() && i != j implies d[i] != d[j] by {
                assert(d[i] == s[i] && d[j] == s[j]);
            }
        }
        lemma_filter_no_duplicates(d, c);
        let f = d.filter(other_than(c));
        if other_than(c)(s.last()) {
            if f.contains(s.last()) {
                d.lemma_filter_contains_rev(other_than(c), s.last());
                let j = choose|j: int| 0 <= j < d.len() && d[j] == s.last();
                assert(s[j] == s[s.len() - 1]);
            }
            lemma_push_fresh_no_duplicates(f, s.last());
        }
    }
}

pub(crate) proof fn lemma_push_fresh_no_duplicates(s: Seq<ConsumerId>, c: ConsumerId)
    requires
        s.no_duplicates(),
        !s.contains(c),
    ensures
        s.push(c).no_duplicates(),
{
    assert forall|i: int, j: int| 0 <= i < s.push(c).len() && 0 <= j < s.push(c).len() && i != j
        implies s.push(c)[i] != s.push(c)[j] by {
        if i == s.len() as int {
            assert(s[j] == s.push(c)[j]);
        } else if j == s.len() as int {
            assert(s[i] == s.push(c)[i]);
        }
    }
}

} // verus!
