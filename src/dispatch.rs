//! The broadcast dispatcher: fans one update out to the subscribers of its
//! topic and prunes those whose connection failed.
use vstd::prelude::*;

use crate::registry::{ids_of, subscribers_of, with_subscriber, Registry, Subscriber, Table};
use crate::transport::{send_frame, Frame, SendOutcome};
use crate::update::Update;

verus! {

/// What happened when one update was sent to one subscriber: the
/// subscriber's connection id, how the send ended, and the frame it sent.
#[derive(Clone, Copy)]
pub struct Delivery {
    pub id: u64,
    pub outcome: SendOutcome,
    pub frame: Frame,
}

/// The connection ids of a delivery report, in the order they were sent to.
pub open spec fn report_ids(report: Seq<Delivery>) -> Seq<u64> {
    report.map_values(|d: Delivery| d.id)
}

/// The pairs of `topic` whose send failed somewhere in `report`.
pub open spec fn failed_keys(topic: Seq<char>, report: Seq<Delivery>) -> Set<(Seq<char>, u64)> {
    Set::new(
        |k: (Seq<char>, u64)|
            k.0 == topic && exists|i: int|
                0 <= i < report.len() && (#[trigger] report[i]).id == k.1 && !(report[i].outcome
                    is Delivered),
    )
}

/// The table once one update to `topic` has been fanned out with the outcomes
/// of `report`: every subscriber whose send failed is gone.
pub open spec fn after_round<H>(t: Table<H>, topic: Seq<char>, report: Seq<Delivery>) -> Table<H> {
    t.remove_keys(failed_keys(topic, report))
}

/// Sends `body` to each subscriber in turn, one frame each, and reports in
/// the same order how each send ended and which frame it was.
pub fn fan_out(subs: &Vec<Subscriber<ws::Sender>>, body: &String) -> (r: Vec<Delivery>)
    ensures
        r.len() == subs.len(),
        report_ids(r@) == ids_of(subs@),
        forall|i: int|
            0 <= i < r.len() ==> (#[trigger] r@[i]).id == subs@[i].id && r@[i].frame.sender()
                == subs@[i].handle && r@[i].frame.body() == body@,
{
    let mut r: Vec<Delivery> = Vec::new();
    let n = subs.len();
    let mut i: usize = 0;
    while i < n
        invariant
            n == subs.len(),
            i <= n,
            r.len() == i,
            forall|k: int|
                0 <= k < i ==> (#[trigger] r@[k]).id == subs@[k].id && r@[k].frame.sender()
                    == subs@[k].handle && r@[k].frame.body() == body@,
        decreases n - i,
    {
        let (outcome, frame) = send_frame(&subs[i].handle, body);
        r.push(Delivery { id: subs[i].id, outcome, frame });
        i = i + 1;
    }
    assert(report_ids(r@) =~= ids_of(subs@));
    r
}

impl<H> Registry<H> {
    /// Removes from `topic` every connection whose send failed in `report`.
    /// A connection that is already gone is passed over.
    pub fn prune(&mut self, topic: &String, report: &Vec<Delivery>)
        requires
            old(self).wf(),
        ensures
            final(self).wf(),
            final(self)@ == after_round(old(self)@, topic@, report@),
    {
        let n = report.len();
        let mut i: usize = 0;
        while i < n
            invariant
                n == report.len(),
                i <= n,
                self.wf(),
                self@ == after_round(old(self)@, topic@, report@.take(i as int)),
            decreases n - i,
        {
            let d = report[i];
            let ghost before = self@;
            if d.outcome != SendOutcome::Delivered {
                self.unregister(topic, d.id);
            }
            assert(self@ =~= after_round(old(self)@, topic@, report@.take(i + 1))) by {
                assert forall|k: (Seq<char>, u64)|
                    #[trigger] failed_keys(topic@, report@.take(i + 1)).contains(k) <==> (
                    failed_keys(topic@, report@.take(i as int)).contains(k) || (!(d.outcome
                        is Delivered) && k == (topic@, d.id))) by {
                    if failed_keys(topic@, report@.take(i + 1)).contains(k) {
                        let j = choose|j: int|
                            0 <= j < i + 1 && (#[trigger] report@.take(i + 1)[j]).id == k.1
                                && !(report@.take(i + 1)[j].outcome is Delivered);
                        if j < i {
                            assert(report@.take(i as int)[j] == report@.take(i + 1)[j]);
                        }
                    }
                    if failed_keys(topic@, report@.take(i as int)).contains(k) {
                        let j = choose|j: int|
                            0 <= j < i && (#[trigger] report@.take(i as int)[j]).id == k.1
                                && !(report@.take(i as int)[j].outcome is Delivered);
                        assert(report@.take(i as int)[j] == report@.take(i + 1)[j]);
                    }
                    if !(d.outcome is Delivered) && k == (topic@, d.id) {
                        assert(report@.take(i + 1)[i as int] == d);
                    }
                }
            }
            i = i + 1;
        }
        assert(report@.take(n as int) =~= report@);
    }
}

/// What one fan-out of `body` to `topic` over table `t` consists of: one
/// entry per subscriber of the topic, each connection once, and each entry's
/// frame carries `body` through a clone of that subscriber's stored handle.
pub open spec fn is_round(t: Table<ws::Sender>, topic: Seq<char>, body: Seq<char>, r: Seq<Delivery>) -> bool {
    &&& report_ids(r).no_duplicates()
    &&& report_ids(r).to_set() == subscribers_of(t, topic)
    &&& forall|i: int|
        0 <= i < r.len() ==> (#[trigger] r[i]).frame.body() == body && cloned(
            t[(topic, r[i].id)],
            r[i].frame.sender(),
        )
}

impl Registry<ws::Sender> {
    /// Delivers one update: takes a snapshot of the subscribers of its topic,
    /// sends the body to each of them once, then prunes those whose send
    /// failed. Returns one entry per subscriber. With no subscriber nothing is
    /// sent and the registry stays as it was.
    pub fn send_update(&mut self, update: &Update) -> (r: Vec<Delivery>)
        requires
            old(self).wf(),
        ensures
            final(self).wf(),
            is_round(old(self)@, update.url@, update.body@, r@),
            final(self)@ == after_round(old(self)@, update.url@, r@),
    {
        let subs = self.snapshot(&update.url);
        let r = fan_out(&subs, &update.body);
        assert forall|i: int| 0 <= i < r.len() implies (#[trigger] r@[i]).frame.body()
            == update.body@ && cloned(self@[(update.url@, r@[i].id)], r@[i].frame.sender()) by {
            assert(subs@[i].id == r@[i].id);
        }
        self.prune(&update.url, &r);
        r
    }
}

proof fn lemma_kept_or_failed(topic: Seq<char>, report: Seq<Delivery>, i: int)
    requires
        0 <= i < report.len(),
        report_ids(report).no_duplicates(),
    ensures
        failed_keys(topic, report).contains((topic, report[i].id)) <==> !(report[i].outcome
            is Delivered),
{
    if failed_keys(topic, report).contains((topic, report[i].id)) {
        let j = choose|j: int|
            0 <= j < report.len() && (#[trigger] report[j]).id == report[i].id && !(
            report[j].outcome is Delivered);
        assert(report_ids(report)[j] == report_ids(report)[i]);
    }
}

proof fn lemma_single_entry(r: Seq<Delivery>, id: u64)
    requires
        report_ids(r).no_duplicates(),
        report_ids(r).to_set() == set![id],
    ensures
        r.len() == 1,
        r[0].id == id,
{
    assert(set![id].contains(id));
    assert(report_ids(r).contains(id));
    if r.len() > 1 {
        assert(report_ids(r).to_set().contains(report_ids(r)[0]));
        assert(report_ids(r).to_set().contains(report_ids(r)[1]));
    }
    assert(report_ids(r).to_set().contains(report_ids(r)[0]));
}

/// Two updates fanned out in turn to one topic: a subscriber to which the
/// first body was sent successfully is sent the second body next, exactly
/// once, through a clone of the same stored handle.
pub proof fn lemma_healthy_subscriber_gets_next_update(
    t: Table<ws::Sender>,
    topic: Seq<char>,
    b1: Seq<char>,
    b2: Seq<char>,
    r1: Seq<Delivery>,
    r2: Seq<Delivery>,
    i: int,
)
    requires
        is_round(t, topic, b1, r1),
        is_round(after_round(t, topic, r1), topic, b2, r2),
        0 <= i < r1.len(),
        r1[i].outcome is Delivered,
    ensures
        r1[i].frame.body() == b1,
        cloned(t[(topic, r1[i].id)], r1[i].frame.sender()),
        exists|j: int|
            0 <= j < r2.len() && (#[trigger] r2[j]).id == r1[i].id && r2[j].frame.body() == b2
                && cloned(t[(topic, r1[i].id)], r2[j].frame.sender()) && forall|k: int|
                0 <= k < r2.len() && (#[trigger] r2[k]).id == r1[i].id ==> k == j,
{
    let id = r1[i].id;
    assert(report_ids(r1)[i] == id);
    assert(report_ids(r1).to_set().contains(id));
    lemma_kept_or_failed(topic, r1, i);
    assert(subscribers_of(after_round(t, topic, r1), topic).contains(id));
    assert(report_ids(r2).to_set().contains(id));
    let j = choose|j: int| 0 <= j < report_ids(r2).len() && report_ids(r2)[j] == id;
    assert(r2[j].id == id);
    assert forall|k: int| 0 <= k < r2.len() && (#[trigger] r2[k]).id == id implies k == j by {
        assert(report_ids(r2)[k] == report_ids(r2)[j]);
    }
}

/// A subscriber whose send failed while an update was fanned out is sent
/// nothing of the next update of that topic, while one whose send succeeded
/// is sent the next body once.
pub proof fn lemma_failed_subscriber_pruned(
    t: Table<ws::Sender>,
    topic: Seq<char>,
    b1: Seq<char>,
    b2: Seq<char>,
    r1: Seq<Delivery>,
    r2: Seq<Delivery>,
    failed: int,
    healthy: int,
)
    requires
        is_round(t, topic, b1, r1),
        is_round(after_round(t, topic, r1), topic, b2, r2),
        0 <= failed < r1.len(),
        !(r1[failed].outcome is Delivered),
        0 <= healthy < r1.len(),
        r1[healthy].outcome is Delivered,
    ensures
        forall|j: int| 0 <= j < r2.len() ==> (#[trigger] r2[j]).id != r1[failed].id,
        exists|j: int|
            0 <= j < r2.len() && (#[trigger] r2[j]).id == r1[healthy].id && r2[j].frame.body()
                == b2 && forall|k: int|
                0 <= k < r2.len() && (#[trigger] r2[k]).id == r1[healthy].id ==> k == j,
{
    lemma_healthy_subscriber_gets_next_update(t, topic, b1, b2, r1, r2, healthy);
    lemma_kept_or_failed(topic, r1, failed);
    let id = r1[failed].id;
    assert(!subscribers_of(after_round(t, topic, r1), topic).contains(id));
    assert forall|j: int| 0 <= j < r2.len() implies (#[trigger] r2[j]).id != id by {
        assert(report_ids(r2)[j] == r2[j].id);
        assert(report_ids(r2).to_set().contains(report_ids(r2)[j]));
    }
}

/// Fanning an update out to a topic without subscribers sends no frame and
/// leaves the table as it was; a subscriber registered afterwards is sent the
/// next body of that topic, once, and nobody else is.
pub proof fn lemma_publish_to_empty_topic(
    t: Table<ws::Sender>,
    topic: Seq<char>,
    b1: Seq<char>,
    b2: Seq<char>,
    r1: Seq<Delivery>,
    s: Subscriber<ws::Sender>,
    r2: Seq<Delivery>,
)
    requires
        subscribers_of(t, topic) == Set::<u64>::empty(),
        is_round(t, topic, b1, r1),
        s.topic@ == topic,
        is_round(with_subscriber(after_round(t, topic, r1), s), topic, b2, r2),
    ensures
        r1.len() == 0,
        after_round(t, topic, r1) == t,
        r2.len() == 1,
        r2[0].id == s.id,
        r2[0].frame.body() == b2,
        cloned(s.handle, r2[0].frame.sender()),
{
    if r1.len() > 0 {
        assert(report_ids(r1).to_set().contains(report_ids(r1)[0]));
    }
    assert(failed_keys(topic, r1) =~= Set::empty());
    assert(after_round(t, topic, r1) =~= t);
    assert(!t.contains_key((topic, s.id))) by {
        assert(!subscribers_of(t, topic).contains(s.id));
    }
    assert(subscribers_of(with_subscriber(t, s), topic) =~= set![s.id]) by {
        assert forall|id: u64| subscribers_of(with_subscriber(t, s), topic).contains(id) implies id
            == s.id by {
            assert(!subscribers_of(t, topic).contains(id));
        }
    }
    lemma_single_entry(r2, s.id);
}

} // verus!
