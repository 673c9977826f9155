//! The subscription registry: which live connections listen to which topic.
use vstd::prelude::*;

verus! {

/// One live connection registered under the topic it asked for at handshake
/// time. `handle` is whatever the transport uses to send to the connection.
pub struct Subscriber<H> {
    pub id: u64,
    pub topic: String,
    pub handle: H,
}

/// The abstract registry: each (topic, connection id) pair that is registered,
/// mapped to the handle of that connection. A topic without subscribers simply
/// has no pair in it.
pub type Table<H> = Map<(Seq<char>, u64), H>;

/// The (topic, connection id) pair under which a subscriber is registered.
pub open spec fn key_of<H>(s: Subscriber<H>) -> (Seq<char>, u64) {
    (s.topic@, s.id)
}

/// The table after registering `s`: unchanged when its pair is already there.
pub open spec fn with_subscriber<H>(t: Table<H>, s: Subscriber<H>) -> Table<H> {
    if t.contains_key(key_of(s)) {
        t
    } else {
        t.insert(key_of(s), s.handle)
    }
}

/// The ids of the connections registered under `topic`.
pub open spec fn subscribers_of<H>(t: Table<H>, topic: Seq<char>) -> Set<u64> {
    Set::new(|id: u64| t.contains_key((topic, id)))
}

/// The connection ids of a sequence of subscribers, in order.
pub open spec fn ids_of<H>(s: Seq<Subscriber<H>>) -> Seq<u64> {
    s.map_values(|x: Subscriber<H>| x.id)
}

/// No two entries of `s` share a (topic, id) pair.
pub open spec fn unique_keys<H>(s: Seq<Subscriber<H>>) -> bool {
    forall|i: int, j: int| 0 <= i < j < s.len() ==> key_of(#[trigger] s[i]) != key_of(#[trigger] s[j])
}

/// The table that a sequence of distinct entries stands for.
pub open spec fn table_of<H>(s: Seq<Subscriber<H>>) -> Table<H>
    decreases s.len(),
{
    if s.len() == 0 {
        Map::empty()
    } else {
        table_of(s.drop_last()).insert(key_of(s.last()), s.last().handle)
    }
}

proof fn lemma_table_of_push<H>(s: Seq<Subscriber<H>>, x: Subscriber<H>)
    ensures
        table_of(s.push(x)) == table_of(s).insert(key_of(x), x.handle),
{
    assert(s.push(x).drop_last() =~= s);
}

proof fn lemma_table_of_dom<H>(s: Seq<Subscriber<H>>, k: (Seq<char>, u64))
    ensures
        table_of(s).contains_key(k) <==> exists|i: int| 0 <= i < s.len() && key_of(#[trigger] s[i]) == k,
    decreases s.len(),
{
    if s.len() > 0 {
        let p = s.drop_last();
        lemma_table_of_dom(p, k);
        if table_of(s).contains_key(k) {
            if k == key_of(s.last()) {
                assert(key_of(s[s.len() - 1]) == k);
            } else {
                let i = choose|i: int| 0 <= i < p.len() && key_of(#[trigger] p[i]) == k;
                assert(s[i] == p[i]);
            }
        }
        if exists|i: int| 0 <= i < s.len() && key_of(#[trigger] s[i]) == k {
            let i = choose|i: int| 0 <= i < s.len() && key_of(#[trigger] s[i]) == k;
            if i < s.len() - 1 {
                assert(p[i] == s[i]);
            }
        }
    }
}

proof fn lemma_table_of_index<H>(s: Seq<Subscriber<H>>, i: int)
    requires
        unique_keys(s),
        0 <= i < s.len(),
    ensures
        table_of(s).contains_key(key_of(s[i])),
        table_of(s)[key_of(s[i])] == s[i].handle,
    decreases s.len(),
{
    let p = s.drop_last();
    if i < s.len() - 1 {
        assert(p[i] == s[i]);
        lemma_table_of_index(p, i);
    }
}

proof fn lemma_table_of_remove<H>(s: Seq<Subscriber<H>>, i: int)
    requires
        unique_keys(s),
        0 <= i < s.len(),
    ensures
        unique_keys(s.remove(i)),
        table_of(s.remove(i)) == table_of(s).remove(key_of(s[i])),
    decreases s.len(),
{
    let p = s.drop_last();
    let k = key_of(s[i]);
    assert(unique_keys(p));
    if i == s.len() - 1 {
        assert(s.remove(i) =~= p);
        lemma_table_of_dom(p, k);
        assert(!table_of(p).contains_key(k));
        assert(table_of(s).remove(k) =~= table_of(p));
    } else {
        assert(p[i] == s[i]);
        lemma_table_of_remove(p, i);
        assert(s.remove(i) =~= p.remove(i).push(s.last()));
        lemma_table_of_push(p.remove(i), s.last());
        assert(key_of(s[i]) != key_of(s[s.len() - 1]));
        assert(table_of(s.remove(i)) =~= table_of(s).remove(k));
    }
}

/// Registering the same subscriber twice leaves the table as after the first
/// registration: its id is among the subscribers of its topic exactly once.
pub proof fn lemma_register_twice<H>(t: Table<H>, s: Subscriber<H>)
    ensures
        with_subscriber(with_subscriber(t, s), s) == with_subscriber(t, s),
        subscribers_of(with_subscriber(with_subscriber(t, s), s), s.topic@) == subscribers_of(
            t,
            s.topic@,
        ).insert(s.id),
{
    assert(subscribers_of(with_subscriber(t, s), s.topic@) =~= subscribers_of(t, s.topic@).insert(
        s.id,
    ));
}

/// Registering a subscriber to a topic without subscribers, then
/// unregistering it twice: the second removal changes nothing and the topic
/// is left without subscribers.
pub proof fn lemma_unregister_twice<H>(t: Table<H>, s: Subscriber<H>)
    requires
        subscribers_of(t, s.topic@) == Set::<u64>::empty(),
    ensures
        with_subscriber(t, s).remove(key_of(s)).remove(key_of(s)) == with_subscriber(t, s).remove(
            key_of(s),
        ),
        subscribers_of(with_subscriber(t, s).remove(key_of(s)).remove(key_of(s)), s.topic@)
            == Set::<u64>::empty(),
{
    let t2 = with_subscriber(t, s).remove(key_of(s));
    assert(t2.remove(key_of(s)) =~= t2);
    assert forall|id: u64| !subscribers_of(t2, s.topic@).contains(id) by {
        assert(!subscribers_of(t, s.topic@).contains(id));
    }
    assert(subscribers_of(t2, s.topic@) =~= Set::<u64>::empty());
}

/// The table of live subscriptions. Each (topic, id) pair is held at most once.
pub struct Registry<H> {
    subs: Vec<Subscriber<H>>,
}

impl<H> View for Registry<H> {
    type V = Table<H>;

    closed spec fn view(&self) -> Table<H> {
        table_of(self.subs@)
    }
}

impl<H> Registry<H> {
    /// The registry's own invariant: no (topic, id) pair is held twice.
    pub closed spec fn wf(&self) -> bool {
        unique_keys(self.subs@)
    }

    /// An empty registry.
    pub fn new() -> (r: Registry<H>)
        ensures
            r.wf(),
            r@ == Table::<H>::empty(),
    {
        Registry { subs: Vec::new() }
    }

    /// Registers `sub` under its topic. Registering a (topic, id) pair that is
    /// already there changes nothing.
    pub fn register(&mut self, sub: Subscriber<H>)
        requires
            old(self).wf(),
        ensures
            final(self).wf(),
            final(self)@ == with_subscriber(old(self)@, sub),
    {
        let n = self.subs.len();
        let mut i: usize = 0;
        while i < n
            invariant
                n == self.subs.len(),
                i <= n,
                self.subs@ == old(self).subs@,
                unique_keys(self.subs@),
                forall|j: int| 0 <= j < i ==> key_of(#[trigger] self.subs@[j]) != key_of(sub),
            decreases n - i,
        {
            if self.subs[i].id == sub.id && self.subs[i].topic == sub.topic {
                proof {
                    lemma_table_of_dom(self.subs@, key_of(sub));
                    assert(key_of(self.subs@[i as int]) == key_of(sub));
                }
                return;
            }
            i = i + 1;
        }
        proof {
            lemma_table_of_dom(self.subs@, key_of(sub));
            lemma_table_of_push(self.subs@, sub);
        }
        self.subs.push(sub);
        assert(unique_keys(self.subs@)) by {
            assert forall|a: int, b: int| 0 <= a < b < self.subs@.len() implies key_of(
                #[trigger] self.subs@[a],
            ) != key_of(#[trigger] self.subs@[b]) by {
                if b == n {
                    assert(self.subs@[a] == old(self).subs@[a]);
                } else {
                    assert(self.subs@[a] == old(self).subs@[a]);
                    assert(self.subs@[b] == old(self).subs@[b]);
                }
            }
        }
    }

    /// Removes the connection `id` from `topic`. An absent pair is not an
    /// error: the call then changes nothing.
    pub fn unregister(&mut self, topic: &String, id: u64)
        requires
            old(self).wf(),
        ensures
            final(self).wf(),
            final(self)@ == old(self)@.remove((topic@, id)),
    {
        let n = self.subs.len();
        let mut i: usize = 0;
        while i < n
            invariant
                n == self.subs.len(),
                i <= n,
                self.subs@ == old(self).subs@,
                unique_keys(self.subs@),
                forall|j: int| 0 <= j < i ==> key_of(#[trigger] self.subs@[j]) != (topic@, id),
            decreases n - i,
        {
            if self.subs[i].id == id && self.subs[i].topic == *topic {
                proof {
                    lemma_table_of_remove(self.subs@, i as int);
                }
                self.subs.remove(i);
                return;
            }
            i = i + 1;
        }
        proof {
            lemma_table_of_dom(self.subs@, (topic@, id));
        }
        assert(self@ =~= old(self)@.remove((topic@, id)));
    }

    /// A copy of the subscribers of `topic` at the instant of the call, each
    /// connection once, so that a caller can send to them without holding on
    /// to the registry.
    pub fn snapshot(&self, topic: &String) -> (r: Vec<Subscriber<H>>)
        where
            H: Clone,
        requires
            self.wf(),
        ensures
            forall|i: int| 0 <= i < r.len() ==> (#[trigger] r@[i]).topic@ == topic@,
            ids_of(r@).no_duplicates(),
            ids_of(r@).to_set() == subscribers_of(self@, topic@),
            forall|i: int|
                0 <= i < r.len() ==> cloned(self@[(topic@, (#[trigger] r@[i]).id)], r@[i].handle),
    {
        let mut r: Vec<Subscriber<H>> = Vec::new();
        let ghost mut src: Seq<int> = Seq::empty();
        let n = self.subs.len();
        let mut i: usize = 0;
        while i < n
            invariant
                n == self.subs.len(),
                i <= n,
                unique_keys(self.subs@),
                r.len() == src.len(),
                forall|k: int| 0 <= k < r.len() ==> 0 <= #[trigger] src[k] < i,
                forall|k: int| 0 <= k < r.len() ==> (#[trigger] r@[k]).topic@ == topic@,
                forall|k: int|
                    0 <= k < r.len() ==> key_of(#[trigger] self.subs@[src[k]]) == (topic@, r@[k].id),
                forall|a: int, b: int| 0 <= a < b < r.len() ==> #[trigger] src[a] < #[trigger] src[b],
                forall|k: int|
                    0 <= k < r.len() ==> cloned(self.subs@[#[trigger] src[k]].handle, r@[k].handle),
                forall|j: int|
                    0 <= j < i && (#[trigger] self.subs@[j]).topic@ == topic@ ==> exists|k: int|
                        0 <= k < r.len() && src[k] == j,
            decreases n - i,
        {
            let ghost prev = src;
            if self.subs[i].topic == *topic {
                let s = Subscriber {
                    id: self.subs[i].id,
                    topic: self.subs[i].topic.clone(),
                    handle: self.subs[i].handle.clone(),
                };
                r.push(s);
                proof {
                    src = src.push(i as int);
                }
            }
            assert forall|j: int|
                0 <= j < i + 1 && (#[trigger] self.subs@[j]).topic@ == topic@ implies exists|k: int|
                    0 <= k < r.len() && src[k] == j by {
                if j == i {
                    assert(src[src.len() - 1] == j);
                } else {
                    let k = choose|k: int| 0 <= k < prev.len() && prev[k] == j;
                    assert(src[k] == prev[k]);
                }
            }
            i = i + 1;
        }
        assert(ids_of(r@).no_duplicates()) by {
            assert forall|a: int, b: int| 0 <= a < ids_of(r@).len() && 0 <= b < ids_of(r@).len() && a != b
                implies ids_of(r@)[a] != ids_of(r@)[b] by {
                if a < b {
                    assert(src[a] < src[b]);
                } else {
                    assert(src[b] < src[a]);
                }
                assert(key_of(self.subs@[src[a]]) != key_of(self.subs@[src[b]]));
            }
        }
        assert forall|id: u64| #[trigger] ids_of(r@).to_set().contains(id) == subscribers_of(self@, topic@).contains(id) by {
            lemma_table_of_dom(self.subs@, (topic@, id));
            if ids_of(r@).to_set().contains(id) {
                let k = choose|k: int| 0 <= k < ids_of(r@).len() && ids_of(r@)[k] == id;
                assert(key_of(self.subs@[src[k]]) == (topic@, id));
            }
            if subscribers_of(self@, topic@).contains(id) {
                let j = choose|j: int| 0 <= j < self.subs@.len() && key_of(#[trigger] self.subs@[j]) == (topic@, id);
                assert(self.subs@[j].topic@ == topic@);
                let k = choose|k: int| 0 <= k < r.len() && src[k] == j;
                assert(ids_of(r@)[k] == id);
            }
        }
        assert(ids_of(r@).to_set() =~= subscribers_of(self@, topic@));
        assert forall|k: int| 0 <= k < r.len() implies cloned(
            self@[(topic@, (#[trigger] r@[k]).id)],
            r@[k].handle,
        ) by {
            lemma_table_of_index(self.subs@, src[k]);
        }
        r
    }
}

} // verus!
