use vstd::prelude::*;
use crate::error::Error;

verus! {

/// The order in which a scheduler hands results back.
#[derive(PartialEq, Eq, Structural, Clone, Copy, Debug)]
pub enum ResultOrder {
    /// Results come back in the order of the input units.
    InputOrder,
    /// Results come back as soon as their unit completes.
    CompletionOrder,
}

/// Decides which work unit starts next and when each result is handed back,
/// keeping at most `limit` units in flight. The caller runs the units and
/// reports their completion.
pub struct Scheduler<R> {
    limit: usize,
    order: ResultOrder,
    next: usize,
    in_flight: usize,
    done: Vec<bool>,
    slots: Vec<Option<R>>,
    emitted: usize,
    stopped: bool,
    running: Ghost<Set<int>>,
    history: Ghost<Seq<int>>,
    results: Ghost<Map<int, R>>,
}

impl<R> Scheduler<R> {
    pub closed spec fn spec_limit(&self) -> nat {
        self.limit as nat
    }

    pub closed spec fn spec_order(&self) -> ResultOrder {
        self.order
    }

    /// Number of work units.
    pub closed spec fn spec_total(&self) -> nat {
        self.done@.len()
    }

    /// Number of units handed out so far; they are `0 .. started`.
    pub closed spec fn started(&self) -> nat {
        self.next as nat
    }

    /// No further unit will be started.
    pub closed spec fn is_stopped(&self) -> bool {
        self.stopped
    }

    /// Units handed out and not yet completed.
    pub closed spec fn running(&self) -> Set<int> {
        self.running@
    }

    /// Units whose result has been handed back, in the order handed back.
    pub closed spec fn history(&self) -> Seq<int> {
        self.history@
    }

    /// The result each completed unit was reported with.
    pub closed spec fn results(&self) -> Map<int, R> {
        self.results@
    }

    closed spec fn wf_core(&self) -> bool {
        &&& self.limit >= 1
        &&& self.slots@.len() == self.done@.len()
        &&& self.next <= self.done@.len()
        &&& self.running@.finite()
        &&& self.running@.len() == self.in_flight as nat
        &&& self.in_flight <= self.limit
        &&& forall|i: int| #[trigger]
            self.running@.contains(i) <==> (0 <= i < self.next && !self.done@[i])
        &&& forall|i: int| 0 <= i < self.done@.len() && #[trigger] self.done@[i] ==> i < self.next
        &&& forall|i: int| #[trigger]
            self.results@.dom().contains(i) <==> (0 <= i < self.done@.len() && self.done@[i])
        &&& self.history@.len() == self.emitted as nat
        &&& self.history@.no_duplicates()
        &&& forall|j: int|
            0 <= j < self.history@.len() ==> self.results@.dom().contains(#[trigger] self.history@[j])
        &&& self.order == ResultOrder::InputOrder ==> {
            &&& forall|j: int| 0 <= j < self.history@.len() ==> #[trigger] self.history@[j] == j
            &&& forall|i: int|
                0 <= i < self.slots@.len() ==> (#[trigger] self.slots@[i] is Some <==> (self.done@[i]
                    && i >= self.emitted))
            &&& forall|i: int|
                0 <= i < self.slots@.len() && #[trigger] self.slots@[i] is Some ==> self.slots@[i]->0
                    == self.results@[i]
        }
        &&& self.order == ResultOrder::CompletionOrder ==> {
            &&& forall|i: int| 0 <= i < self.slots@.len() ==> #[trigger] self.slots@[i] is None
            &&& forall|i: int| #[trigger] self.results@.dom().contains(i) ==> self.history@.contains(i)
            &&& self.emitted + self.in_flight == self.next
        }
    }

    closed spec fn drained(&self) -> bool {
        self.emitted < self.slots@.len() ==> self.slots@[self.emitted as int] is None
    }

    pub closed spec fn wf(&self) -> bool {
        self.wf_core() && self.drained()
    }

    /// A scheduler for `total` units with at most `limit` in flight. A limit
    /// of zero is a configuration error.
    pub fn new(total: usize, limit: usize, order: ResultOrder) -> (r: Result<Scheduler<R>, Error>)
        ensures
            limit == 0 <==> r is Err,
            r matches Err(e) ==> e is ConfigError,
            r matches Ok(s) ==> {
                &&& s.wf()
                &&& s.spec_total() == total
                &&& s.spec_limit() == limit
                &&& s.spec_order() == order
                &&& s.started() == 0
                &&& !s.is_stopped()
                &&& s.running() == Set::<int>::empty()
                &&& s.history() == Seq::<int>::empty()
                &&& s.results() == Map::<int, R>::empty()
            },
    {
        if limit == 0 {
            return Err(Error::ConfigError(String::from_str("the concurrency limit must be positive")));
        }
        let mut done: Vec<bool> = Vec::new();
        let mut slots: Vec<Option<R>> = Vec::new();
        let mut i: usize = 0;
        while i < total
            invariant
                i <= total,
                done@.len() == i,
                slots@.len() == i,
                forall|k: int| 0 <= k < i ==> !(#[trigger] done@[k]),
                forall|k: int| 0 <= k < i ==> (#[trigger] slots@[k]) is None,
            decreases total - i,
        {
            done.push(false);
            slots.push(None);
            i = i + 1;
        }
        let s = Scheduler {
            limit,
            order,
            next: 0,
            in_flight: 0,
            done,
            slots,
            emitted: 0,
            stopped: false,
            running: Ghost(Set::empty()),
            history: Ghost(Seq::empty()),
            results: Ghost(Map::empty()),
        };
        assert(s.wf_core());
        Ok(s)
    }

    pub fn total(&self) -> (r: usize)
        requires
            self.wf(),
        ensures
            r == self.spec_total(),
    {
        self.done.len()
    }

    /// Number of units in flight.
    pub fn in_flight(&self) -> (r: usize)
        requires
            self.wf(),
        ensures
            r == self.running().len(),
    {
        self.in_flight
    }

    /// Number of results handed back so far.
    pub fn delivered(&self) -> (r: usize)
        requires
            self.wf(),
        ensures
            r == self.history().len(),
    {
        self.emitted
    }

    /// Whether `unit` has been handed out and not yet completed.
    pub fn is_running(&self, unit: usize) -> (r: bool)
        requires
            self.wf(),
        ensures
            r == self.running().contains(unit as int),
    {
        unit < self.next && !self.done[unit]
    }

    /// Starts no further unit; units in flight may still complete and their
    /// results are handed back as usual.
    pub fn stop(&mut self)
        requires
            old(self).wf(),
        ensures
            final(self).wf(),
            final(self).is_stopped(),
            final(self).spec_total() == old(self).spec_total(),
            final(self).spec_limit() == old(self).spec_limit(),
            final(self).spec_order() == old(self).spec_order(),
            final(self).started() == old(self).started(),
            final(self).running() == old(self).running(),
            final(self).history() == old(self).history(),
            final(self).results() == old(self).results(),
    {
        self.stopped = true;
    }

    pub fn stopped(&self) -> (r: bool)
        ensures
            r == self.is_stopped(),
    {
        self.stopped
    }

    /// The next unit to start, if one is left and the limit allows it.
    pub fn next_unit(&mut self) -> (r: Option<usize>)
        requires
            old(self).wf(),
        ensures
            final(self).wf(),
            final(self).spec_total() == old(self).spec_total(),
            final(self).spec_limit() == old(self).spec_limit(),
            final(self).spec_order() == old(self).spec_order(),
            final(self).history() == old(self).history(),
            final(self).results() == old(self).results(),
            final(self).is_stopped() == old(self).is_stopped(),
            r is Some <==> (!old(self).is_stopped() && old(self).running().len() < old(self).spec_limit()
                && old(self).started() < old(self).spec_total()),
            r matches Some(u) ==> {
                &&& u == old(self).started()
                &&& final(self).started() == old(self).started() + 1
                &&& final(self).running() == old(self).running().insert(u as int)
            },
            r is None ==> final(self).started() == old(self).started() && final(self).running()
                == old(self).running(),
    {
        if !self.stopped && self.in_flight < self.limit && self.next < self.done.len() {
            let u = self.next;
            assert(!self.running@.contains(u as int));
            self.running = Ghost(self.running@.insert(u as int));
            self.next = self.next + 1;
            self.in_flight = self.in_flight + 1;
            Some(u)
        } else {
            None
        }
    }

    /// Records that `unit` finished with `result` and hands back every result
    /// that is now due, in the order the scheduler's mode asks for.
    pub fn complete(&mut self, unit: usize, result: R) -> (out: Vec<(usize, R)>)
        requires
            old(self).wf(),
            old(self).running().contains(unit as int),
        ensures
            final(self).wf(),
            final(self).spec_total() == old(self).spec_total(),
            final(self).spec_limit() == old(self).spec_limit(),
            final(self).spec_order() == old(self).spec_order(),
            final(self).started() == old(self).started(),
            final(self).is_stopped() == old(self).is_stopped(),
            final(self).running() == old(self).running().remove(unit as int),
            final(self).results() == old(self).results().insert(unit as int, result),
            final(self).history() == old(self).history() + out@.map_values(
                |p: (usize, R)| p.0 as int,
            ),
            forall|j: int|
                0 <= j < out@.len() ==> (#[trigger] out@[j]).1 == final(self).results()[out@[j].0 as int],
            old(self).spec_order() == ResultOrder::CompletionOrder ==> out@ == seq![(unit, result)],
    {
        let ghost old_history = self.history@;
        assert(self.running@.remove(unit as int).len() == self.running@.len() - 1);
        self.running = Ghost(self.running@.remove(unit as int));
        self.results = Ghost(self.results@.insert(unit as int, result));
        self.in_flight = self.in_flight - 1;
        self.done.set(unit, true);
        match self.order {
            ResultOrder::CompletionOrder => {
                assert(!self.history@.contains(unit as int));
                self.history = Ghost(self.history@.push(unit as int));
                self.emitted = self.emitted + 1;
                let mut out: Vec<(usize, R)> = Vec::new();
                out.push((unit, result));
                assert(self.history@ =~= old_history + out@.map_values(|p: (usize, R)| p.0 as int));
                assert forall|i: int| #[trigger] self.results@.dom().contains(i) implies self.history@.contains(i) by {
                    if i != unit as int {
                        assert(old_history.contains(i));
                        let j = choose|j: int| 0 <= j < old_history.len() && old_history[j] == i;
                        assert(self.history@[j] == i);
                    } else {
                        assert(self.history@[self.history@.len() - 1] == i);
                    }
                }
                out
            },
            ResultOrder::InputOrder => {
                assert(unit >= self.emitted) by {
                    if unit < self.emitted {
                        assert(old_history[unit as int] == unit as int);
                    }
                }
                let mut slot = Some(result);
                self.slots.set_and_swap(unit, &mut slot);
                let mut out: Vec<(usize, R)> = Vec::new();
                while self.emitted < self.slots.len() && self.slots[self.emitted].is_some()
                    invariant
                        self.wf_core(),
                        self.order == ResultOrder::InputOrder,
                        self.done@.len() == old(self).done@.len(),
                        self.limit == old(self).limit,
                        self.next == old(self).next,
                        self.stopped == old(self).stopped,
                        self.running@ == old(self).running@.remove(unit as int),
                        self.results@ == old(self).results@.insert(unit as int, result),
                        self.history@ == old_history + out@.map_values(|p: (usize, R)| p.0 as int),
                        forall|j: int|
                            0 <= j < out@.len() ==> (#[trigger] out@[j]).1 == self.results@[out@[j].0 as int],
                    decreases self.slots@.len() - self.emitted,
                {
                    let e = self.emitted;
                    let mut taken: Option<R> = None;
                    self.slots.set_and_swap(e, &mut taken);
                    let r = taken.unwrap();
                    let ghost before = out@;
                    out.push((e, r));
                    assert(!self.history@.contains(e as int));
                    self.history = Ghost(self.history@.push(e as int));
                    self.emitted = e + 1;
                    assert(out@.map_values(|p: (usize, R)| p.0 as int) =~= before.map_values(
                        |p: (usize, R)| p.0 as int,
                    ).push(e as int));
                }
                out
            },
        }
    }
}

/// At every moment no more units are in flight than the limit allows.
pub proof fn lemma_in_flight_bounded<R>(s: Scheduler<R>)
    requires
        s.wf(),
    ensures
        s.running().finite(),
        s.running().len() <= s.spec_limit(),
        forall|i: int| #[trigger] s.running().contains(i) ==> 0 <= i < s.started(),
{
}

/// In input order, the results handed back so far are those of units
/// `0, 1, 2, ...`, in that order, each with the result it was reported with.
pub proof fn lemma_input_order_kept<R>(s: Scheduler<R>)
    requires
        s.wf(),
        s.spec_order() == ResultOrder::InputOrder,
    ensures
        forall|j: int| 0 <= j < s.history().len() ==> #[trigger] s.history()[j] == j,
        forall|j: int| 0 <= j < s.history().len() ==> s.results().dom().contains(#[trigger] s.history()[j]),
{
}

/// Once every unit has completed, every unit's result has been handed back,
/// each exactly once, whatever the order mode.
pub proof fn lemma_every_unit_delivered<R>(s: Scheduler<R>)
    requires
        s.wf(),
        forall|i: int| 0 <= i < s.spec_total() ==> #[trigger] s.results().dom().contains(i),
    ensures
        forall|i: int| 0 <= i < s.spec_total() ==> #[trigger] s.history().contains(i),
        s.history().no_duplicates(),
{
    if s.spec_order() == ResultOrder::InputOrder {
        if s.history().len() < s.spec_total() {
            let e = s.history().len() as int;
            assert(s.results().dom().contains(e));
            assert(s.slots@[e] is Some);
        }
        assert(s.history().len() >= s.spec_total());
        assert forall|i: int| 0 <= i < s.spec_total() implies #[trigger] s.history().contains(i) by {
            assert(s.history()[i] == i);
        }
    } else {
        assert forall|i: int| 0 <= i < s.spec_total() implies #[trigger] s.history().contains(i) by {
            assert(s.results().dom().contains(i));
        }
    }
}

} // verus!
