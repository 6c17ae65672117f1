use vstd::prelude::*;
use crate::error::HubError;
use crate::event::{UpdateEvent, UpdateEventView};

verus! {

/// How many undelivered events a subscriber may hold. A subscriber whose
/// buffer is full when another event arrives is disconnected.
pub const SUBSCRIBER_CAPACITY: usize = 16;

/// Which events a subscriber receives.
#[derive(Clone, Copy, Debug, PartialEq, Eq, Structural)]
pub enum SubscriberKind {
    Status,
    Artifact,
    /// Both kinds, in one buffer, in the order they were broadcast.
    Combined,
    /// Artifact events, and the final status event that closes the task.
    ArtifactsUntilFinal,
}

struct Subscription {
    id: u64,
    task_id: String,
    kind: SubscriberKind,
    pending: Vec<UpdateEvent>,
}

pub struct SubscriptionView {
    pub id: u64,
    pub task_id: Seq<char>,
    pub kind: SubscriberKind,
    pub pending: Seq<UpdateEventView>,
}

impl View for Subscription {
    type V = SubscriptionView;

    closed spec fn view(&self) -> SubscriptionView {
        SubscriptionView {
            id: self.id,
            task_id: self.task_id@,
            kind: self.kind,
            pending: self.pending@.map_values(|e: UpdateEvent| e@),
        }
    }
}

pub open spec fn accepts(kind: SubscriberKind, e: UpdateEventView) -> bool {
    match kind {
        SubscriberKind::Status => e is Status,
        SubscriberKind::Artifact => e is Artifact,
        SubscriberKind::Combined => true,
        SubscriberKind::ArtifactsUntilFinal => e is Artifact || is_final_status(e),
    }
}

pub open spec fn is_final_status(e: UpdateEventView) -> bool {
    match e {
        UpdateEventView::Status(s) => s.is_final,
        _ => false,
    }
}

/// A change applied to every subscription in turn.
pub enum Rule {
    /// Drop the subscription with this identifier.
    DropId(u64),
    /// Drop every subscription of the named task.
    DropTask(Seq<char>),
    /// Hand the event to each subscription of the task that accepts it,
    /// disconnecting those whose buffer is full.
    Deliver(Seq<char>, UpdateEventView),
}

pub open spec fn rule_step(r: Rule, x: SubscriptionView) -> Option<SubscriptionView> {
    match r {
        Rule::DropId(id) => if x.id == id { None } else { Some(x) },
        Rule::DropTask(t) => if x.task_id == t { None } else { Some(x) },
        Rule::Deliver(t, e) => if x.task_id == t && accepts(x.kind, e) {
            if x.pending.len() < SUBSCRIBER_CAPACITY {
                Some(SubscriptionView { pending: x.pending.push(e), ..x })
            } else {
                None
            }
        } else {
            Some(x)
        },
    }
}

/// The subscriptions after `r`, in their original order.
pub open spec fn apply_rule(r: Rule, s: Seq<SubscriptionView>) -> Seq<SubscriptionView>
    decreases s.len(),
{
    if s.len() == 0 {
        s
    } else {
        let pre = apply_rule(r, s.drop_last());
        match rule_step(r, s.last()) {
            Some(y) => pre.push(y),
            None => pre,
        }
    }
}

pub open spec fn has_id(s: Seq<SubscriptionView>, id: u64) -> bool {
    exists|i: int| 0 <= i < s.len() && s[i].id == id
}

/// How many subscriptions, of any kind, belong to the task.
pub open spec fn count_for(s: Seq<SubscriptionView>, t: Seq<char>) -> nat
    decreases s.len(),
{
    if s.len() == 0 {
        0
    } else {
        count_for(s.drop_last(), t) + if s.last().task_id == t { 1nat } else { 0nat }
    }
}

enum ExecRule<'a> {
    DropId(u64),
    DropTask(&'a String),
    Deliver(&'a String, &'a UpdateEvent),
}

impl<'a> ExecRule<'a> {
    closed spec fn spec_rule(&self) -> Rule {
        match self {
            ExecRule::DropId(id) => Rule::DropId(*id),
            ExecRule::DropTask(t) => Rule::DropTask(t@),
            ExecRule::Deliver(t, e) => Rule::Deliver(t@, e@),
        }
    }
}

/// The subscription a status or artifact event reaches, or the unchanged
/// subscription when the event is not for it.
pub open spec fn delivered(x: SubscriptionView, t: Seq<char>, e: UpdateEventView) -> SubscriptionView {
    if x.task_id == t && accepts(x.kind, e) {
        SubscriptionView { pending: x.pending.push(e), ..x }
    } else {
        x
    }
}

/// Every subscription of the task that accepts the event has room for it.
pub open spec fn has_room(s: Seq<SubscriptionView>, t: Seq<char>, e: UpdateEventView) -> bool {
    forall|i: int| 0 <= i < s.len() && s[i].task_id == t && accepts(s[i].kind, e)
        ==> #[trigger] s[i].pending.len() < SUBSCRIBER_CAPACITY
}

/// Once a subscription identifier has been removed, no subscription carries
/// it, so removing it again is refused.
pub proof fn lemma_removed_id_gone(s: Seq<SubscriptionView>, id: u64)
    ensures
        !has_id(apply_rule(Rule::DropId(id), s), id),
    decreases s.len(),
{
    if s.len() > 0 {
        lemma_removed_id_gone(s.drop_last(), id);
        let pre = apply_rule(Rule::DropId(id), s.drop_last());
        let r = apply_rule(Rule::DropId(id), s);
        assert forall|i: int| 0 <= i < r.len() implies r[i].id != id by {
            if i < pre.len() {
                assert(r[i] == pre[i]);
            }
        }
    }
}

/// A broadcast in which no receiving buffer is full reaches exactly the
/// subscriptions of the task that accept the event's kind, appends it to
/// each of their buffers, leaves every other subscription as it was, and
/// disconnects no one.
pub proof fn lemma_delivery_by_kind(s: Seq<SubscriptionView>, t: Seq<char>, e: UpdateEventView)
    requires
        has_room(s, t, e),
    ensures
        apply_rule(Rule::Deliver(t, e), s) == s.map_values(|x: SubscriptionView| delivered(x, t, e)),
    decreases s.len(),
{
    if s.len() > 0 {
        let d = s.drop_last();
        assert forall|i: int| 0 <= i < d.len() && d[i].task_id == t && accepts(d[i].kind, e)
            implies #[trigger] d[i].pending.len() < SUBSCRIBER_CAPACITY by {
            assert(d[i] == s[i]);
        }
        lemma_delivery_by_kind(d, t, e);
        assert(s.last() == s[s.len() - 1]);
        assert(apply_rule(Rule::Deliver(t, e), s) =~= s.map_values(|x: SubscriptionView| delivered(x, t, e)));
    } else {
        assert(apply_rule(Rule::Deliver(t, e), s) =~= s.map_values(|x: SubscriptionView| delivered(x, t, e)));
    }
}

/// Appending to buffers changes no task's subscriber count.
pub proof fn lemma_delivery_keeps_counts(s: Seq<SubscriptionView>, t: Seq<char>, e: UpdateEventView, u: Seq<char>)
    ensures
        count_for(s.map_values(|x: SubscriptionView| delivered(x, t, e)), u) == count_for(s, u),
    decreases s.len(),
{
    if s.len() > 0 {
        let m = s.map_values(|x: SubscriptionView| delivered(x, t, e));
        lemma_delivery_keeps_counts(s.drop_last(), t, e, u);
        assert(m.drop_last() =~= s.drop_last().map_values(|x: SubscriptionView| delivered(x, t, e)));
    }
}

pub open spec fn distinct_ids(s: Seq<SubscriptionView>) -> bool {
    forall|i: int, j: int| 0 <= i < j < s.len() ==> s[i].id != s[j].id
}

/// The subscription carrying `id`, if any.
pub open spec fn find_sub(s: Seq<SubscriptionView>, id: u64) -> Option<SubscriptionView>
    decreases s.len(),
{
    if s.len() == 0 {
        None
    } else if s.last().id == id {
        Some(s.last())
    } else {
        find_sub(s.drop_last(), id)
    }
}

proof fn lemma_find_absent(s: Seq<SubscriptionView>, id: u64)
    requires
        !has_id(s, id),
    ensures
        find_sub(s, id) is None,
    decreases s.len(),
{
    if s.len() > 0 {
        let d = s.drop_last();
        assert(s[s.len() - 1].id != id);
        assert forall|i: int| 0 <= i < d.len() implies d[i].id != id by {
            assert(d[i] == s[i]);
        }
        lemma_find_absent(d, id);
    }
}

/// A rule changes each subscription on its own: the one carrying `id`
/// afterwards is what the rule made of the one carrying it before, and
/// identifiers stay distinct.
pub proof fn lemma_rule_acts_per_subscription(r: Rule, s: Seq<SubscriptionView>, id: u64)
    requires
        distinct_ids(s),
    ensures
        distinct_ids(apply_rule(r, s)),
        forall|k: int| 0 <= k < apply_rule(r, s).len() ==> has_id(s, #[trigger] apply_rule(r, s)[k].id),
        find_sub(apply_rule(r, s), id) == match find_sub(s, id) {
            Some(x) => rule_step(r, x),
            None => None::<SubscriptionView>,
        },
    decreases s.len(),
{
    if s.len() > 0 {
        let d = s.drop_last();
        let last = s[s.len() - 1];
        assert(s.last() == last);
        assert forall|i: int, j: int| 0 <= i < j < d.len() implies d[i].id != d[j].id by {
            assert(d[i] == s[i] && d[j] == s[j]);
        }
        lemma_rule_acts_per_subscription(r, d, id);
        let pre = apply_rule(r, d);
        let out = apply_rule(r, s);
        assert forall|k: int| 0 <= k < pre.len() implies pre[k].id != last.id by {
            let i = choose|i: int| 0 <= i < d.len() && d[i].id == pre[k].id;
            assert(d[i] == s[i]);
        }
        assert forall|k: int| 0 <= k < out.len() implies has_id(s, #[trigger] out[k].id) by {
            if k < pre.len() {
                assert(out[k] == pre[k]);
                let i = choose|i: int| 0 <= i < d.len() && d[i].id == pre[k].id;
                assert(s[i] == d[i]);
            } else {
                assert(s[s.len() - 1].id == out[k].id);
            }
        }
        match rule_step(r, last) {
            Some(y) => {
                assert(out == pre.push(y));
                assert(out.drop_last() =~= pre);
                assert(out.last() == y);
                assert forall|i: int, j: int| 0 <= i < j < out.len() implies out[i].id != out[j].id by {
                    if j < pre.len() {
                        assert(out[i] == pre[i] && out[j] == pre[j]);
                    } else {
                        assert(out[i] == pre[i]);
                    }
                }
                if last.id != id {
                    assert(find_sub(out, id) == find_sub(pre, id));
                }
            },
            None => {
                if last.id == id {
                    assert forall|i: int| 0 <= i < d.len() implies d[i].id != id by {
                        assert(d[i] == s[i]);
                    }
                    lemma_find_absent(d, id);
                    assert forall|k: int| 0 <= k < pre.len() implies pre[k].id != id by {}
                    lemma_find_absent(pre, id);
                }
            },
        }
    }
}

/// A status subscriber registered before a task's changes receives every
/// status event of that task, in the order they were broadcast, whatever
/// happens to the other subscribers.
pub proof fn lemma_status_subscriber_sees_each_change(
    s: Seq<SubscriptionView>,
    id: u64,
    t: Seq<char>,
    e1: UpdateEventView,
    e2: UpdateEventView,
    e3: UpdateEventView,
)
    requires
        distinct_ids(s),
        find_sub(s, id) == Some(SubscriptionView { id, task_id: t, kind: SubscriberKind::Status, pending: Seq::empty() }),
        e1 is Status,
        e2 is Status,
        e3 is Status,
    ensures
        find_sub(
            apply_rule(Rule::Deliver(t, e3), apply_rule(Rule::Deliver(t, e2), apply_rule(Rule::Deliver(t, e1), s))),
            id,
        ) == Some(SubscriptionView { id, task_id: t, kind: SubscriberKind::Status, pending: seq![e1, e2, e3] }),
{
    let x = SubscriptionView { id, task_id: t, kind: SubscriberKind::Status, pending: Seq::<UpdateEventView>::empty() };
    let s1 = apply_rule(Rule::Deliver(t, e1), s);
    let s2 = apply_rule(Rule::Deliver(t, e2), s1);
    lemma_rule_acts_per_subscription(Rule::Deliver(t, e1), s, id);
    lemma_rule_acts_per_subscription(Rule::Deliver(t, e2), s1, id);
    lemma_rule_acts_per_subscription(Rule::Deliver(t, e3), s2, id);
    assert(Seq::<UpdateEventView>::empty().push(e1).push(e2).push(e3) =~= seq![e1, e2, e3]);
}

/// Live subscriptions, each with the events not yet taken from it.
pub struct SubscriptionRegistry {
    subs: Vec<Subscription>,
    next_id: u64,
}

impl View for SubscriptionRegistry {
    type V = Seq<SubscriptionView>;

    closed spec fn view(&self) -> Seq<SubscriptionView> {
        self.subs@.map_values(|s: Subscription| s@)
    }
}

impl SubscriptionRegistry {
    /// The identifier the next registration receives; every identifier handed
    /// out so far is smaller.
    pub closed spec fn next_id(&self) -> u64 {
        self.next_id
    }

    pub closed spec fn wf(&self) -> bool {
        &&& forall|i: int, j: int| 0 <= i < j < self.subs@.len() ==> self.subs@[i].id < self.subs@[j].id
        &&& forall|i: int| 0 <= i < self.subs@.len() ==> self.subs@[i].id < self.next_id
        &&& forall|i: int| 0 <= i < self.subs@.len() ==> self.subs@[i].pending@.len() <= SUBSCRIBER_CAPACITY
    }

    pub fn new() -> (r: SubscriptionRegistry)
        ensures
            r.wf(),
            r@ == Seq::<SubscriptionView>::empty(),
            r.next_id() == 0,
    {
        let r = SubscriptionRegistry { subs: Vec::new(), next_id: 0 };
        assert(r@ =~= Seq::<SubscriptionView>::empty());
        r
    }

    /// No two live subscriptions share an identifier.
    pub proof fn lemma_ids_distinct(&self)
        requires
            self.wf(),
        ensures
            distinct_ids(self@),
    {
        assert forall|i: int, j: int| 0 <= i < j < self@.len() implies self@[i].id != self@[j].id by {
            assert(self.subs@[i].id < self.subs@[j].id);
        }
    }

    /// Whether another identifier can still be handed out.
    pub fn has_free_id(&self) -> (r: bool)
        ensures
            r == (self.next_id() < u64::MAX),
    {
        self.next_id < u64::MAX
    }

    /// Registers a subscriber with an empty buffer under a fresh identifier.
    pub fn add_subscriber(&mut self, task_id: &str, kind: SubscriberKind) -> (r: u64)
        requires
            old(self).wf(),
            old(self).next_id() < u64::MAX,
        ensures
            final(self).wf(),
            r == old(self).next_id(),
            final(self).next_id() == old(self).next_id() + 1,
            forall|i: int| 0 <= i < old(self)@.len() ==> old(self)@[i].id < r,
            final(self)@ == old(self)@.push(
                SubscriptionView { id: r, task_id: task_id@, kind, pending: Seq::empty() },
            ),
    {
        let id = self.next_id;
        let s = Subscription { id, task_id: task_id.to_owned(), kind, pending: Vec::new() };
        proof {
            assert(s@.pending =~= Seq::<UpdateEventView>::empty());
        }
        self.subs.push(s);
        self.next_id = id + 1;
        proof {
            assert(self@ =~= old(self)@.push(
                SubscriptionView { id, task_id: task_id@, kind, pending: Seq::empty() },
            ));
        }
        id
    }

    fn position(&self, id: u64) -> (r: Option<usize>)
        requires
            self.wf(),
        ensures
            match r {
                Some(i) => i < self@.len() && self@[i as int].id == id,
                None => !has_id(self@, id),
            },
    {
        let mut i: usize = 0;
        while i < self.subs.len()
            invariant
                i <= self.subs@.len(),
                forall|j: int| 0 <= j < i ==> self.subs@[j].id != id,
            decreases self.subs@.len() - i,
        {
            if self.subs[i].id == id {
                return Some(i);
            }
            i = i + 1;
        }
        proof {
            assert forall|j: int| 0 <= j < self@.len() implies self@[j].id != id by {
                assert(self@[j].id == self.subs@[j].id);
            }
        }
        None
    }

    fn step(rule: &ExecRule, x: Subscription) -> (r: Option<Subscription>)
        requires
            x.pending@.len() <= SUBSCRIBER_CAPACITY,
        ensures
            match r {
                Some(y) => rule_step(rule.spec_rule(), x@) == Some(y@) && y.id == x.id
                    && y.pending@.len() <= SUBSCRIBER_CAPACITY,
                None => rule_step(rule.spec_rule(), x@) is None,
            },
    {
        match rule {
            ExecRule::DropId(id) => if x.id == *id { None } else { Some(x) },
            ExecRule::DropTask(t) => if x.task_id == **t { None } else { Some(x) },
            ExecRule::Deliver(t, e) => {
                let takes = match (x.kind, e) {
                    (SubscriberKind::Status, UpdateEvent::Status(_)) => true,
                    (SubscriberKind::Artifact, UpdateEvent::Artifact(_)) => true,
                    (SubscriberKind::Combined, _) => true,
                    (SubscriberKind::ArtifactsUntilFinal, UpdateEvent::Artifact(_)) => true,
                    (SubscriberKind::ArtifactsUntilFinal, UpdateEvent::Status(se)) => se.is_final,
                    _ => false,
                };
                if x.task_id == **t && takes {
                    if x.pending.len() < SUBSCRIBER_CAPACITY {
                        let mut y = x;
                        y.pending.push(e.duplicate());
                        proof {
                            assert(y@.pending =~= x@.pending.push(e@));
                        }
                        Some(y)
                    } else {
                        None
                    }
                } else {
                    Some(x)
                }
            },
        }
    }

    fn run_rule(&mut self, rule: &ExecRule)
        requires
            old(self).wf(),
        ensures
            final(self).wf(),
            final(self).next_id() == old(self).next_id(),
            final(self)@ == apply_rule(rule.spec_rule(), old(self)@),
    {
        let ghost rv = rule.spec_rule();
        let ghost old_v = self@;
        let mut i: usize = 0;
        let ghost mut j: int = 0;
        proof {
            assert(self@.subrange(0, 0) =~= apply_rule(rv, old_v.subrange(0, 0)));
            assert(self@.subrange(0, self@.len() as int) =~= old_v.subrange(0, old_v.len() as int));
        }
        while i < self.subs.len()
            invariant
                self.wf(),
                self.next_id == old(self).next_id,
                rv == rule.spec_rule(),
                0 <= j <= old_v.len(),
                i <= j,
                self@.len() == i + (old_v.len() - j),
                self@.subrange(0, i as int) == apply_rule(rv, old_v.subrange(0, j)),
                self@.subrange(i as int, self@.len() as int) == old_v.subrange(j, old_v.len() as int),
            decreases old_v.len() - j,
        {
            let ghost cur = self@;
            proof {
                assert(cur[i as int] == cur.subrange(i as int, cur.len() as int)[0]);
                assert(old_v.subrange(j, old_v.len() as int)[0] == old_v[j]);
                assert(old_v.subrange(0, j + 1).drop_last() =~= old_v.subrange(0, j));
                assert(old_v.subrange(0, j + 1).last() == old_v[j]);
            }
            let x = self.subs.remove(i);
            assert(x@ == old_v[j]);
            let r = Self::step(rule, x);
            match r {
                Some(y) => {
                    self.subs.insert(i, y);
                    proof {
                        assert(self@ =~= cur.update(i as int, y@));
                        assert(self@.subrange(0, i + 1) =~= cur.subrange(0, i as int).push(y@));
                        assert forall|k: int| 0 <= k < self@.len() - (i + 1) implies #[trigger] self@.subrange(i + 1, self@.len() as int)[k]
                            == old_v.subrange(j + 1, old_v.len() as int)[k] by {
                            assert(cur.subrange(i as int, cur.len() as int)[k + 1] == old_v.subrange(j, old_v.len() as int)[k + 1]);
                        }
                        assert(self@.subrange(i + 1, self@.len() as int) =~= old_v.subrange(j + 1, old_v.len() as int));
                    }
                    i = i + 1;
                },
                None => {
                    proof {
                        assert(self@ =~= cur.remove(i as int));
                        assert(self@.subrange(0, i as int) =~= cur.subrange(0, i as int));
                        assert forall|k: int| 0 <= k < self@.len() - i implies #[trigger] self@.subrange(i as int, self@.len() as int)[k]
                            == old_v.subrange(j + 1, old_v.len() as int)[k] by {
                            assert(cur.subrange(i as int, cur.len() as int)[k + 1] == old_v.subrange(j, old_v.len() as int)[k + 1]);
                        }
                        assert(self@.subrange(i as int, self@.len() as int) =~= old_v.subrange(j + 1, old_v.len() as int));
                    }
                },
            }
            proof {
                j = j + 1;
            }
        }
        proof {
            assert(old_v.subrange(0, old_v.len() as int) =~= old_v);
            assert(self@.subrange(0, i as int) =~= self@);
        }
    }

    /// Removes the subscription with this identifier, whichever task it is on.
    pub fn remove_subscription(&mut self, id: u64) -> (r: Result<(), HubError>)
        requires
            old(self).wf(),
        ensures
            final(self).wf(),
            final(self).next_id() == old(self).next_id(),
            !has_id(old(self)@, id) ==> r == Err::<(), HubError>(HubError::NotFound)
                && final(self)@ == old(self)@,
            has_id(old(self)@, id) ==> r == Ok::<(), HubError>(())
                && final(self)@ == apply_rule(Rule::DropId(id), old(self)@),
    {
        match self.position(id) {
            None => Err(HubError::NotFound),
            Some(_) => {
                self.run_rule(&ExecRule::DropId(id));
                Ok(())
            },
        }
    }

    /// Removes every subscription of the task; succeeds when there is none.
    pub fn remove_task_subscribers(&mut self, task_id: &str) -> (r: Result<(), HubError>)
        requires
            old(self).wf(),
        ensures
            final(self).wf(),
            final(self).next_id() == old(self).next_id(),
            r == Ok::<(), HubError>(()),
            final(self)@ == apply_rule(Rule::DropTask(task_id@), old(self)@),
    {
        let key = task_id.to_owned();
        self.run_rule(&ExecRule::DropTask(&key));
        Ok(())
    }

    /// Hands the event to the task's subscribers that accept its kind.
    pub fn broadcast(&mut self, task_id: &str, event: &UpdateEvent)
        requires
            old(self).wf(),
        ensures
            final(self).wf(),
            final(self).next_id() == old(self).next_id(),
            final(self)@ == apply_rule(Rule::Deliver(task_id@, event@), old(self)@),
    {
        let key = task_id.to_owned();
        self.run_rule(&ExecRule::Deliver(&key, event));
    }

    /// The number of subscriptions of the task, of every kind.
    pub fn subscriber_count(&self, task_id: &str) -> (r: usize)
        requires
            self.wf(),
        ensures
            r == count_for(self@, task_id@),
    {
        let key = task_id.to_owned();
        let mut n: usize = 0;
        let mut i: usize = 0;
        while i < self.subs.len()
            invariant
                i <= self.subs@.len(),
                n == count_for(self@.subrange(0, i as int), key@),
                n <= i,
            decreases self.subs@.len() - i,
        {
            proof {
                assert(self@.subrange(0, i + 1).drop_last() =~= self@.subrange(0, i as int));
                assert(self@.subrange(0, i + 1).last() == self@[i as int]);
            }
            if self.subs[i].task_id == key {
                n = n + 1;
            }
            i = i + 1;
        }
        proof {
            assert(self@.subrange(0, self@.len() as int) =~= self@);
        }
        n
    }

    /// Takes the oldest undelivered event of a subscription.
    pub fn take_next(&mut self, id: u64) -> (r: Option<UpdateEvent>)
        requires
            old(self).wf(),
        ensures
            final(self).wf(),
            final(self).next_id() == old(self).next_id(),
            forall|i: int| 0 <= i < old(self)@.len() && old(self)@[i].id == id
                && old(self)@[i].pending.len() > 0 ==> r is Some
                && r->Some_0@ == old(self)@[i].pending[0]
                && final(self)@ == old(self)@.update(i, SubscriptionView {
                    pending: old(self)@[i].pending.drop_first(), ..old(self)@[i] }),
            forall|i: int| 0 <= i < old(self)@.len() && old(self)@[i].id == id
                && old(self)@[i].pending.len() == 0 ==> r is None && final(self)@ == old(self)@,
            !has_id(old(self)@, id) ==> r is None && final(self)@ == old(self)@,
    {
        match self.position(id) {
            None => None,
            Some(i) => {
                if self.subs[i].pending.len() == 0 {
                    proof {
                        assert forall|k: int| 0 <= k < old(self)@.len() && old(self)@[k].id == id
                            implies k == i by {
                            if k < i { assert(self.subs@[k].id < self.subs@[i as int].id); }
                            if k > i { assert(self.subs@[i as int].id < self.subs@[k].id); }
                        }
                    }
                    return None;
                }
                let ghost cur = self@;
                let mut x = self.subs.remove(i);
                let e = x.pending.remove(0);
                proof {
                    assert(x@.pending =~= cur[i as int].pending.drop_first());
                }
                self.subs.insert(i, x);
                proof {
                    assert(self@ =~= cur.update(i as int, SubscriptionView {
                        pending: cur[i as int].pending.drop_first(), ..cur[i as int] }));
                    assert forall|k: int| 0 <= k < old(self)@.len() && old(self)@[k].id == id
                        implies k == i by {
                        if k < i { assert(old(self).subs@[k].id < old(self).subs@[i as int].id); }
                        if k > i { assert(old(self).subs@[i as int].id < old(self).subs@[k].id); }
                    }
                }
                Some(e)
            },
        }
    }

    pub fn is_subscribed(&self, id: u64) -> (r: bool)
        requires
            self.wf(),
        ensures
            r == has_id(self@, id),
    {
        self.position(id).is_some()
    }
}

} // verus!
