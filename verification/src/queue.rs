//! The signals that wait for their turn.
use crate::deep::DeepEq;
use crate::store::{entry_ids, InboxEntry, InboxEntryView, SignalKind};
use std::collections::VecDeque;
use vstd::prelude::*;
use vstd::seq_lib::lemma_seq_concat_contains_all_elements;

verus! {

/// Waiting signals, by how they are taken up.
#[derive(Debug)]
pub struct Queue {
    pub immediate: VecDeque<InboxEntry>,
    pub steers: VecDeque<InboxEntry>,
    pub follow_ups: VecDeque<InboxEntry>,
    pub resume: bool,
}

/// The value of a [`Queue`].
pub struct QueueView {
    pub immediate: Seq<InboxEntryView>,
    pub steers: Seq<InboxEntryView>,
    pub follow_ups: Seq<InboxEntryView>,
    pub resume: bool,
}

impl DeepView for Queue {
    type V = QueueView;

    open spec fn deep_view(&self) -> QueueView {
        QueueView {
            immediate: self.immediate.deep_view(),
            steers: self.steers.deep_view(),
            follow_ups: self.follow_ups.deep_view(),
            resume: self.resume,
        }
    }
}

/// A queue in which nothing waits.
pub open spec fn empty_queue() -> QueueView {
    QueueView {
        immediate: Seq::empty(),
        steers: Seq::empty(),
        follow_ups: Seq::empty(),
        resume: false,
    }
}

/// How much waits: every entry, and a resume.
pub open spec fn queue_len(q: QueueView) -> nat {
    q.immediate.len() + q.steers.len() + q.follow_ups.len() + if q.resume {
        1nat
    } else {
        0
    }
}

/// Every waiting entry.
pub open spec fn waiting(q: QueueView) -> Seq<InboxEntryView> {
    q.immediate + q.steers + q.follow_ups
}

/// Whether an entry with this id waits.
pub open spec fn queue_has(q: QueueView, id: Seq<char>) -> bool {
    entry_ids(waiting(q)).contains(id)
}

/// A queue with one entry more. The newest interrupt goes first; the others keep their order.
pub open spec fn queue_push(q: QueueView, entry: InboxEntryView) -> QueueView {
    match entry.kind {
        SignalKind::Interrupt => QueueView { immediate: seq![entry] + q.immediate, ..q },
        SignalKind::Steer => QueueView { steers: q.steers.push(entry), ..q },
        SignalKind::FollowUp => QueueView { follow_ups: q.follow_ups.push(entry), ..q },
    }
}

/// A queue with one entry more that was waiting before the session began: interrupts, too, keep
/// the order they come in.
pub open spec fn queue_restore(q: QueueView, entry: InboxEntryView) -> QueueView {
    if entry.kind is Interrupt {
        QueueView { immediate: q.immediate.push(entry), ..q }
    } else {
        queue_push(q, entry)
    }
}

/// A queue of entries that were waiting before the session began.
pub open spec fn restored(entries: Seq<InboxEntryView>) -> QueueView
    decreases entries.len(),
{
    if entries.len() == 0 {
        empty_queue()
    } else {
        queue_restore(restored(entries.drop_last()), entries.last())
    }
}

/// What the next turn takes up: an interrupt, else all the steering signals, else a resume with
/// no entry at all, else one follow-up.
pub open spec fn queue_next(q: QueueView) -> Option<Seq<InboxEntryView>> {
    if q.immediate.len() > 0 {
        Some(seq![q.immediate[0]])
    } else if q.steers.len() > 0 {
        Some(q.steers)
    } else if q.resume {
        Some(Seq::empty())
    } else if q.follow_ups.len() > 0 {
        Some(seq![q.follow_ups[0]])
    } else {
        None
    }
}

/// What waits once the next turn has been taken.
pub open spec fn queue_rest(q: QueueView) -> QueueView {
    if q.immediate.len() > 0 {
        QueueView { immediate: q.immediate.skip(1), ..q }
    } else if q.steers.len() > 0 {
        QueueView { steers: Seq::empty(), ..q }
    } else if q.resume {
        QueueView { resume: false, ..q }
    } else if q.follow_ups.len() > 0 {
        QueueView { follow_ups: q.follow_ups.skip(1), ..q }
    } else {
        q
    }
}

fn deque_has(entries: &VecDeque<InboxEntry>, id: &String) -> (r: bool)
    ensures
        r == entry_ids(entries.deep_view()).contains(id@),
{
    let ghost ids = entry_ids(entries.deep_view());
    let mut i: usize = 0;
    while i < entries.len()
        invariant
            i <= entries.len(),
            ids == entry_ids(entries.deep_view()),
            forall|k: int| 0 <= k < i ==> ids[k] != id@,
        decreases entries.len() - i,
    {
        if entries[i].id.deep_eq(id) {
            assert(ids[i as int] == id@);
            return true;
        }
        i += 1;
    }
    false
}

impl Queue {
    /// A queue in which nothing waits.
    pub fn new() -> (r: Queue)
        ensures
            r.deep_view() == empty_queue(),
    {
        let r = Queue {
            immediate: VecDeque::new(),
            steers: VecDeque::new(),
            follow_ups: VecDeque::new(),
            resume: false,
        };
        proof {
            assert(r.immediate.deep_view() =~= Seq::empty());
            assert(r.steers.deep_view() =~= Seq::empty());
            assert(r.follow_ups.deep_view() =~= Seq::empty());
        }
        r
    }

    /// How much waits.
    pub fn len(&self) -> (r: usize)
        requires
            queue_len(self.deep_view()) <= usize::MAX,
        ensures
            r == queue_len(self.deep_view()),
    {
        self.immediate.len() + self.steers.len() + self.follow_ups.len() + if self.resume {
            1
        } else {
            0
        }
    }

    /// Whether an entry with this id waits.
    pub fn contains(&self, id: &String) -> (r: bool)
        ensures
            r == queue_has(self.deep_view(), id@),
    {
        proof {
            let q = self.deep_view();
            assert(entry_ids(waiting(q)) =~= entry_ids(q.immediate) + entry_ids(q.steers) + entry_ids(
                q.follow_ups,
            ));
            lemma_seq_concat_contains_all_elements(entry_ids(q.immediate) + entry_ids(q.steers), entry_ids(q.follow_ups), id@);
            lemma_seq_concat_contains_all_elements(entry_ids(q.immediate), entry_ids(q.steers), id@);
        }
        deque_has(&self.immediate, id) || deque_has(&self.steers, id) || deque_has(
            &self.follow_ups,
            id,
        )
    }

    /// Add an entry.
    pub fn push(&mut self, entry: InboxEntry)
        ensures
            final(self).deep_view() == queue_push(old(self).deep_view(), entry.deep_view()),
    {
        let ghost q = self.deep_view();
        let ghost e = entry.deep_view();
        match entry.kind {
            SignalKind::Interrupt => {
                self.immediate.push_front(entry);
                assert(self.immediate.deep_view() =~= seq![e] + q.immediate);
            },
            SignalKind::Steer => {
                self.steers.push_back(entry);
                assert(self.steers.deep_view() =~= q.steers.push(e));
            },
            SignalKind::FollowUp => {
                self.follow_ups.push_back(entry);
                assert(self.follow_ups.deep_view() =~= q.follow_ups.push(e));
            },
        }
    }

    /// Add an entry that was waiting before the session began.
    pub fn restore(&mut self, entry: InboxEntry)
        ensures
            final(self).deep_view() == queue_restore(old(self).deep_view(), entry.deep_view()),
    {
        let ghost q = self.deep_view();
        let ghost e = entry.deep_view();
        if entry.kind == SignalKind::Interrupt {
            self.immediate.push_back(entry);
            assert(self.immediate.deep_view() =~= q.immediate.push(e));
        } else {
            self.push(entry);
        }
    }

    /// Take up what the next turn is to run.
    pub fn next(&mut self) -> (r: Option<Vec<InboxEntry>>)
        ensures
            r.deep_view() == queue_next(old(self).deep_view()),
            final(self).deep_view() == queue_rest(old(self).deep_view()),
    {
        let ghost q = self.deep_view();
        if let Some(entry) = self.immediate.pop_front() {
            let mut taken: Vec<InboxEntry> = Vec::new();
            taken.push(entry);
            assert(taken.deep_view() =~= seq![q.immediate[0]]);
            assert(self.immediate.deep_view() =~= q.immediate.skip(1));
            return Some(taken);
        }
        if self.steers.len() > 0 {
            let mut taken: Vec<InboxEntry> = Vec::new();
            assert(q.immediate.len() == 0);
            while self.steers.len() > 0
                invariant
                    q.immediate.len() == 0,
                    q.steers.len() > 0,
                    self.immediate.deep_view() == q.immediate,
                    self.follow_ups.deep_view() == q.follow_ups,
                    self.resume == q.resume,
                    taken.deep_view() + self.steers.deep_view() == q.steers,
                decreases self.steers.len(),
            {
                let ghost (t, s) = (taken.deep_view(), self.steers.deep_view());
                if let Some(entry) = self.steers.pop_front() {
                    taken.push(entry);
                    assert(taken.deep_view() =~= t.push(s[0]));
                    assert(self.steers.deep_view() =~= s.skip(1));
                    assert(taken.deep_view() + self.steers.deep_view() =~= t + s);
                }
            }
            assert(self.steers.deep_view() =~= Seq::empty());
            assert(taken.deep_view() =~= q.steers);
            assert(self.deep_view().immediate =~= q.immediate);
            return Some(taken);
        }
        if self.resume {
            self.resume = false;
            let taken: Vec<InboxEntry> = Vec::new();
            assert(taken.deep_view() =~= Seq::empty());
            return Some(taken);
        }
        match self.follow_ups.pop_front() {
            Some(entry) => {
                let mut taken: Vec<InboxEntry> = Vec::new();
                taken.push(entry);
                assert(taken.deep_view() =~= seq![q.follow_ups[0]]);
                assert(self.follow_ups.deep_view() =~= q.follow_ups.skip(1));
                Some(taken)
            },
            None => None,
        }
    }
}

/// Nothing that waits is lost or doubled: what a turn takes and what stays behind is, entry by
/// entry, what waited before.
pub proof fn law_turns_lose_nothing(q: QueueView)
    requires
        queue_next(q) is Some,
    ensures
        queue_next(q)->0 + waiting(queue_rest(q)) == waiting(q),
        queue_len(queue_rest(q)) < queue_len(q),
{
    assert(queue_next(q)->0 + waiting(queue_rest(q)) =~= waiting(q));
}

/// Adding an entry makes it wait, and makes nothing else wait.
pub proof fn law_push_adds_one(q: QueueView, entry: InboxEntryView, other: InboxEntryView)
    ensures
        waiting(queue_push(q, entry)).contains(other) <==> other == entry || waiting(q).contains(other),
        queue_len(queue_push(q, entry)) == queue_len(q) + 1,
        queue_has(queue_push(q, entry), entry.id),
{
    let p = queue_push(q, entry);
    lemma_seq_concat_contains_all_elements(q.immediate + q.steers, q.follow_ups, other);
    lemma_seq_concat_contains_all_elements(q.immediate, q.steers, other);
    lemma_seq_concat_contains_all_elements(p.immediate + p.steers, p.follow_ups, other);
    lemma_seq_concat_contains_all_elements(p.immediate, p.steers, other);
    match entry.kind {
        SignalKind::Interrupt => {
            lemma_seq_concat_contains_all_elements(seq![entry], q.immediate, other);
            assert(seq![entry][0] == entry);
            assert(entry_ids(waiting(p))[0] == entry.id);
        },
        SignalKind::Steer => {
            assert(p.steers =~= q.steers + seq![entry]);
            lemma_seq_concat_contains_all_elements(q.steers, seq![entry], other);
            assert(seq![entry][0] == entry);
            assert(entry_ids(waiting(p))[(q.immediate.len() + q.steers.len()) as int] == entry.id);
        },
        SignalKind::FollowUp => {
            assert(p.follow_ups =~= q.follow_ups + seq![entry]);
            lemma_seq_concat_contains_all_elements(q.follow_ups, seq![entry], other);
            assert(seq![entry][0] == entry);
            assert(entry_ids(waiting(p))[waiting(q).len() as int] == entry.id);
        },
    }
}

/// A live interrupt is the next to be taken up, before interrupts that came earlier.
pub proof fn law_newest_interrupt_goes_first(q: QueueView, entry: InboxEntryView)
    requires
        entry.kind is Interrupt,
    ensures
        queue_next(queue_push(q, entry)) == Some(seq![entry]),
        queue_rest(queue_push(q, entry)) == q,
{
    assert((seq![entry] + q.immediate).skip(1) =~= q.immediate);
}

/// Restored entries keep, kind by kind, the order in which they were stored.
pub proof fn law_restored_entries_keep_their_order(entries: Seq<InboxEntryView>)
    ensures
        restored(entries).immediate == entries.filter(|e: InboxEntryView| e.kind is Interrupt),
        restored(entries).steers == entries.filter(|e: InboxEntryView| e.kind is Steer),
        restored(entries).follow_ups == entries.filter(|e: InboxEntryView| e.kind is FollowUp),
        !restored(entries).resume,
        queue_len(restored(entries)) == entries.len(),
    decreases entries.len(),
{
    reveal(Seq::filter);
    if entries.len() > 0 {
        law_restored_entries_keep_their_order(entries.drop_last());
    }
}

/// What a turn takes up: the first interrupt alone; without one, all steering signals together, in
/// order; without those, a resume alone, which takes no entry; without one, the first follow-up
/// alone. Nothing is taken up exactly where nothing waits.
pub proof fn law_turns_take_up_what_is_due(q: QueueView)
    ensures
        queue_next(q) is None <==> q.immediate.len() == 0 && q.steers.len() == 0 && q.follow_ups.len()
            == 0 && !q.resume,
        q.immediate.len() > 0 ==> queue_next(q) == Some(seq![q.immediate.first()]) && queue_rest(q)
            == (QueueView { immediate: q.immediate.drop_first(), ..q }),
        q.immediate.len() == 0 && q.steers.len() > 0 ==> queue_next(q) == Some(q.steers)
            && queue_rest(q) == (QueueView { steers: Seq::empty(), ..q }),
        q.immediate.len() == 0 && q.steers.len() == 0 && q.resume ==> queue_next(q) == Some(
            Seq::<InboxEntryView>::empty(),
        ) && queue_rest(q) == (QueueView { resume: false, ..q }),
        q.immediate.len() == 0 && q.steers.len() == 0 && !q.resume && q.follow_ups.len() > 0
            ==> queue_next(q) == Some(seq![q.follow_ups.first()]) && queue_rest(q) == (QueueView {
            follow_ups: q.follow_ups.drop_first(),
            ..q
        }),
        queue_len(q) == waiting(q).len() + (if q.resume {
            1int
        } else {
            0
        }),
        queue_next(q) is None <==> queue_len(q) == 0,
{
    if q.immediate.len() > 0 {
        assert(q.immediate.skip(1) =~= q.immediate.drop_first());
    } else if q.steers.len() == 0 && !q.resume && q.follow_ups.len() > 0 {
        assert(q.follow_ups.skip(1) =~= q.follow_ups.drop_first());
    }
}

/// A steering signal waits behind the other ones, a follow-up behind the other follow-ups, and an
/// interrupt in front of the other interrupts; where it waited before the session began, an
/// interrupt waits behind them. Whatever else waits stays where it is.
pub proof fn law_signals_wait_in_line(q: QueueView, entry: InboxEntryView, id: Seq<char>)
    ensures
        entry.kind is Steer ==> queue_push(q, entry) == (QueueView { steers: q.steers.push(entry), ..q })
            && queue_restore(q, entry) == queue_push(q, entry),
        entry.kind is FollowUp ==> queue_push(q, entry) == (QueueView {
            follow_ups: q.follow_ups.push(entry),
            ..q
        }) && queue_restore(q, entry) == queue_push(q, entry),
        entry.kind is Interrupt ==> queue_push(q, entry) == (QueueView {
            immediate: seq![entry] + q.immediate,
            ..q
        }) && queue_restore(q, entry) == (QueueView { immediate: q.immediate.push(entry), ..q }),
        waiting(q) == q.immediate + q.steers + q.follow_ups,
        queue_has(q, id) <==> exists|k: int|
            0 <= k < waiting(q).len() && (#[trigger] waiting(q)[k]).id == id,
{
    let ids = entry_ids(waiting(q));
    if queue_has(q, id) {
        let k = choose|k: int| 0 <= k < ids.len() && ids[k] == id;
        assert(waiting(q)[k].id == id);
    }
    if exists|k: int| 0 <= k < waiting(q).len() && (#[trigger] waiting(q)[k]).id == id {
        let k = choose|k: int| 0 <= k < waiting(q).len() && (#[trigger] waiting(q)[k]).id == id;
        assert(ids[k] == id);
    }
}

} // verus!
