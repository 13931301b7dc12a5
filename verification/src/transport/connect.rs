//! The calling end of a connection.
//!
//! A [`Connector`] keeps the table of outstanding calls. Issuing a call
//! picks a correlation id that no outstanding call uses, files the caller's
//! completion handle under it and hands back the envelope to write. When a
//! response envelope arrives, the handle filed under its id is taken out of
//! the table and handed back together with the response. When the
//! connection ends, every handle that is still in the table is handed back so
//! that its call can be failed.
//!
//! The connector never touches the transport. It only decides; whoever owns
//! the sink and the source writes the envelope and completes the handles.

use std::collections::HashMap;
use vstd::prelude::*;
use vstd::std_specs::hash::*;
use vstd::std_specs::iter::IteratorSpec;

use crate::error::CallError;
use crate::transport::message::{Incoming, TranportMesssage};

verus! {

broadcast use vstd::std_specs::hash::group_hash_axioms;

/// The id that follows `id`; after the largest id comes 0.
pub open spec fn id_after(id: usize) -> usize {
    if id == usize::MAX {
        0
    } else {
        (id + 1) as usize
    }
}

/// The id `k` steps after `start`, for `0 <= k <= usize::MAX`, wrapping
/// round after the largest id.
pub open spec fn probe(start: usize, k: int) -> usize {
    if start + k <= usize::MAX {
        (start + k) as usize
    } else {
        (start + k - usize::MAX - 1) as usize
    }
}

/// The number of steps from `start`, counted from `k`, to the first id that
/// is not in `taken`. The walk gives up at the last id there is.
pub open spec fn steps_to_free(start: usize, taken: Set<usize>, k: int) -> int
    decreases usize::MAX - k,
{
    if k < 0 || k >= usize::MAX || !taken.contains(probe(start, k)) {
        k
    } else {
        steps_to_free(start, taken, k + 1)
    }
}

/// The first id at or after `start`, in wrapping order, that is not in
/// `taken`.
pub open spec fn fresh_id(start: usize, taken: Set<usize>) -> usize {
    probe(start, steps_to_free(start, taken, 0))
}

/// Where a connection is in its life.
#[derive(Clone, Copy, Debug, PartialEq, Eq, Structural)]
pub enum Phase {
    /// Calls are accepted and responses are delivered.
    Active,
    /// No new call is accepted; responses to outstanding calls are still
    /// delivered.
    Closing,
    /// The connection is over and no call is outstanding.
    Closed,
}

impl Phase {
    /// How far along a phase is: a connection goes from active through
    /// closing to closed.
    pub open spec fn rank(self) -> nat {
        match self {
            Phase::Active => 0,
            Phase::Closing => 1,
            Phase::Closed => 2,
        }
    }
}

/// The mathematical state of a [`Connector`]: its phase, the id at which the
/// search for the next fresh id starts, and the table of outstanding calls.
pub ghost struct ConnectorView<W> {
    pub phase: Phase,
    pub next_id: usize,
    pub pending: Map<usize, W>,
}

impl<W> ConnectorView<W> {
    /// The state of a connector that was just made. The first call gets
    /// the id 1.
    pub open spec fn initial() -> Self {
        ConnectorView { phase: Phase::Active, next_id: 1, pending: Map::empty() }
    }

    /// What every reachable state satisfies: the table is finite, leaves at
    /// least one id free, and is empty once the connection is closed.
    pub open spec fn wf(self) -> bool {
        &&& self.pending.dom().finite()
        &&& self.pending.dom().len() <= usize::MAX
        &&& self.phase == Phase::Closed ==> self.pending =~= Map::empty()
    }

    /// The id that the next accepted call gets.
    pub open spec fn upcoming_id(self) -> usize {
        fresh_id(self.next_id, self.pending.dom())
    }

    /// The state after a call with completion handle `waiter` was accepted.
    pub open spec fn issue(self, waiter: W) -> Self {
        ConnectorView {
            phase: self.phase,
            next_id: id_after(self.upcoming_id()),
            pending: self.pending.insert(self.upcoming_id(), waiter),
        }
    }

    /// The state after the entry under `id`, if there was one, left the
    /// table.
    pub open spec fn settle(self, id: usize) -> Self {
        ConnectorView { phase: self.phase, next_id: self.next_id, pending: self.pending.remove(id) }
    }

    /// The state after the connector stopped accepting calls.
    pub open spec fn shutdown(self) -> Self {
        ConnectorView {
            phase: if self.phase == Phase::Active {
                Phase::Closing
            } else {
                self.phase
            },
            next_id: self.next_id,
            pending: self.pending,
        }
    }

    /// The state after the connection ended.
    pub open spec fn close(self) -> Self {
        ConnectorView { phase: Phase::Closed, next_id: self.next_id, pending: Map::empty() }
    }

    /// The state after `event`.
    pub open spec fn step(self, event: Event<W>) -> Self {
        match event {
            Event::Issue(waiter) => if self.phase == Phase::Active {
                self.issue(waiter)
            } else {
                self
            },
            Event::Response(id) => self.settle(id),
            Event::Cancel(id) => self.settle(id),
            Event::Shutdown => self.shutdown(),
            Event::Close => self.close(),
        }
    }

    /// The state after each of `events` in turn.
    pub open spec fn run(self, events: Seq<Event<W>>) -> Self
        decreases events.len(),
    {
        if events.len() == 0 {
            self
        } else {
            self.run(events.drop_last()).step(events.last())
        }
    }

    /// The state after a call was accepted for each of `waiters` in turn.
    pub open spec fn issue_all(self, waiters: Seq<W>) -> Self
        decreases waiters.len(),
    {
        if waiters.len() == 0 {
            self
        } else {
            self.issue_all(waiters.drop_last()).issue(waiters.last())
        }
    }

    /// The ids that those calls got, in the order of the calls.
    pub open spec fn issued_ids(self, waiters: Seq<W>) -> Seq<usize>
        decreases waiters.len(),
    {
        if waiters.len() == 0 {
            Seq::empty()
        } else {
            self.issued_ids(waiters.drop_last()).push(
                self.issue_all(waiters.drop_last()).upcoming_id(),
            )
        }
    }

    /// The state after a response arrived under each of `ids` in turn.
    pub open spec fn settle_all(self, ids: Seq<usize>) -> Self
        decreases ids.len(),
    {
        if ids.len() == 0 {
            self
        } else {
            self.settle_all(ids.drop_last()).settle(ids.last())
        }
    }
}

/// What can happen to a connector while the connection lasts.
pub ghost enum Event<W> {
    /// A call with this completion handle is offered.
    Issue(W),
    /// A response arrives under this id.
    Response(usize),
    /// The call under this id is given up, by its caller or because its
    /// envelope could not be written.
    Cancel(usize),
    /// The connector stops accepting calls.
    Shutdown,
    /// The connection ends.
    Close,
}

/// Any `k` ids that are `k` consecutive steps from `start` are `k` different
/// ids, so a set that holds them all has at least `k` elements.
proof fn lemma_probes_counted(start: usize, taken: Set<usize>, k: int)
    requires
        taken.finite(),
        0 <= k <= usize::MAX + 1,
        forall|j: int| 0 <= j < k ==> taken.contains(#[trigger] probe(start, j)),
    ensures
        taken.len() >= k,
    decreases k,
{
    if k > 0 {
        let last = probe(start, k - 1);
        let rest = taken.remove(last);
        assert forall|j: int| 0 <= j < k - 1 implies rest.contains(#[trigger] probe(start, j)) by {
            assert(probe(start, j) != last);
        }
        lemma_probes_counted(start, rest, k - 1);
    }
}

/// The walk for a fresh id ends on an id outside the table, as long as the
/// table leaves one id free.
pub proof fn lemma_fresh_id_is_free(start: usize, taken: Set<usize>)
    requires
        taken.finite(),
        taken.len() <= usize::MAX,
    ensures
        !taken.contains(fresh_id(start, taken)),
{
    lemma_walk_ends_free(start, taken, 0);
}

/// The walk goes on from step `k` to an id outside the table, where every id
/// before step `k` is in the table.
proof fn lemma_walk_ends_free(start: usize, taken: Set<usize>, k: int)
    requires
        taken.finite(),
        taken.len() <= usize::MAX,
        0 <= k <= usize::MAX,
        forall|j: int| 0 <= j < k ==> taken.contains(#[trigger] probe(start, j)),
    ensures
        0 <= steps_to_free(start, taken, k) <= usize::MAX,
        !taken.contains(probe(start, steps_to_free(start, taken, k))),
    decreases usize::MAX - k,
{
    if taken.contains(probe(start, k)) {
        if k >= usize::MAX {
            lemma_probes_counted(start, taken, k + 1);
        } else {
            lemma_walk_ends_free(start, taken, k + 1);
        }
    }
}

/// Takes the next id off `counter`: the result is the counter's value, and
/// the counter moves on by one, wrapping round after the largest id.
pub fn gen_id(counter: &mut usize) -> (id: usize)
    ensures
        id == *old(counter),
        *final(counter) == id_after(id),
{
    let id: usize = *counter;
    if id == usize::MAX {
        *counter = 0;
    } else {
        *counter = id + 1;
    }
    id
}

/// A call that was not accepted. The request and the completion handle come
/// back untouched.
#[derive(Debug)]
pub struct Refused<Request, W> {
    pub request: Request,
    pub waiter: W,
}

/// A call that ends without a response: the completion handle that was
/// filed under `id` is to be completed with `error`.
#[derive(Debug)]
pub struct Failed<W> {
    pub id: usize,
    pub waiter: W,
    pub error: CallError,
}

/// What the receive loop is to do after a read of the source.
#[derive(Debug)]
pub enum Received<W, Response> {
    /// An envelope was read and routed; the loop goes on.
    Routed(Delivery<W, Response>),
    /// The connection is over: these calls are to be failed, and the loop
    /// ends.
    Closed(Vec<Failed<W>>),
}

/// What became of a response envelope.
#[derive(Debug)]
pub enum Delivery<W, Response> {
    /// A call was outstanding under the envelope's id: `waiter` is its
    /// completion handle and is to be completed with `response`.
    Deliver { waiter: W, response: Response },
    /// No call was outstanding under `id`: the response is to be discarded.
    Stray { id: usize, response: Response },
}

/// What becomes of `envelope` when the table is `pending`.
pub open spec fn route_response<W, Response>(
    pending: Map<usize, W>,
    envelope: TranportMesssage<Response>,
) -> Delivery<W, Response> {
    if pending.contains_key(envelope.id) {
        Delivery::Deliver { waiter: pending[envelope.id], response: envelope.message }
    } else {
        Delivery::Stray { id: envelope.id, response: envelope.message }
    }
}

/// Whether `id` is among the first `i` elements of `ids`.
spec fn listed_before(ids: Seq<usize>, i: int, id: usize) -> bool {
    exists|j: int| 0 <= j < i && ids[j] == id
}

/// `entries` lists the table `pending`: every entry of the table is listed,
/// none twice, and nothing else is.
pub open spec fn holds_exactly<W>(entries: Seq<Failed<W>>, pending: Map<usize, W>) -> bool {
    &&& entries.len() == pending.dom().len()
    &&& forall|i: int|
        0 <= i < entries.len() ==> pending.contains_pair(
            (#[trigger] entries[i]).id,
            entries[i].waiter,
        )
    &&& forall|i: int, j: int|
        0 <= i < j < entries.len() ==> (#[trigger] entries[i]).id != (#[trigger] entries[j]).id
    &&& forall|id: usize| #[trigger]
        pending.contains_key(id) ==> exists|i: int|
            0 <= i < entries.len() && (#[trigger] entries[i]).id == id
}

/// The outstanding-call table of one connection.
///
/// `W` is the completion handle of a call: whatever the caller waits on.
pub struct Connector<W> {
    phase: Phase,
    next_id: usize,
    pending: HashMap<usize, W>,
}

impl<W> View for Connector<W> {
    type V = ConnectorView<W>;

    closed spec fn view(&self) -> ConnectorView<W> {
        ConnectorView { phase: self.phase, next_id: self.next_id, pending: self.pending@ }
    }
}

impl<W> Connector<W> {
    /// Every connector is in a state that the operations below can reach.
    #[verifier::type_invariant]
    spec fn inv(&self) -> bool {
        self@.wf()
    }

    /// A connector for a connection that was just established: active, with
    /// no call outstanding.
    pub fn new() -> (connector: Self)
        ensures
            connector@ == ConnectorView::<W>::initial(),
            connector@.wf(),
    {
        let pending: HashMap<usize, W> = HashMap::new();
        Connector { phase: Phase::Active, next_id: 1, pending }
    }

    /// The phase of the connection.
    pub fn phase(&self) -> (phase: Phase)
        ensures
            phase == self@.phase,
            self@.wf(),
    {
        proof {
            use_type_invariant(self);
        }
        self.phase
    }

    /// The number of outstanding calls.
    pub fn outstanding(&self) -> (count: usize)
        ensures
            count == self@.pending.dom().len(),
            self@.wf(),
    {
        proof {
            use_type_invariant(self);
        }
        self.pending.len()
    }

    /// Whether a call is outstanding under `id`.
    pub fn is_outstanding(&self, id: usize) -> (found: bool)
        ensures
            found == self@.pending.contains_key(id),
            self@.wf(),
    {
        proof {
            use_type_invariant(self);
        }
        self.pending.contains_key(&id)
    }

    /// Accepts a call: picks the first id from the counter on that no
    /// outstanding call uses, files `waiter` under it and returns the
    /// envelope to write to the sink.
    ///
    /// The call is accepted exactly when the connector is active. Otherwise
    /// nothing changes and both arguments come back.
    pub fn send_request<Request>(&mut self, request: Request, waiter: W) -> (outcome: Result<
        TranportMesssage<Request>,
        Refused<Request, W>,
    >)
        ensures
            old(self)@.wf(),
            final(self)@.wf(),
            old(self)@.phase == Phase::Active ==> {
                &&& outcome is Ok
                &&& outcome->Ok_0.id == old(self)@.upcoming_id()
                &&& outcome->Ok_0.message == request
                &&& !old(self)@.pending.contains_key(outcome->Ok_0.id)
                &&& final(self)@ == old(self)@.issue(waiter)
            },
            old(self)@.phase != Phase::Active ==> {
                &&& outcome is Err
                &&& outcome->Err_0.request == request
                &&& outcome->Err_0.waiter == waiter
                &&& final(self)@ == old(self)@
            },
    {
        proof {
            use_type_invariant(&*self);
        }
        match self.phase {
            Phase::Active => {},
            _ => {
                return Err(Refused { request, waiter });
            },
        }
        let mut pending: HashMap<usize, W> = HashMap::new();
        std::mem::swap(&mut self.pending, &mut pending);
        let mut counter: usize = self.next_id;
        let ghost start = counter;
        let ghost taken = pending@.dom();
        let ghost mut k: int = 0;
        let mut id: usize = gen_id(&mut counter);
        while pending.contains_key(&id)
            invariant
                pending@ == old(self).pending@,
                taken == pending@.dom(),
                taken.finite(),
                taken.len() <= usize::MAX,
                0 <= k <= usize::MAX,
                id == probe(start, k),
                counter == id_after(id),
                forall|j: int| 0 <= j < k ==> taken.contains(#[trigger] probe(start, j)),
                steps_to_free(start, taken, 0) == steps_to_free(start, taken, k),
            decreases usize::MAX - k,
        {
            proof {
                if k >= usize::MAX {
                    lemma_probes_counted(start, taken, k + 1);
                }
                k = k + 1;
            }
            id = gen_id(&mut counter);
        }
        pending.insert(id, waiter);
        proof {
            lemma_walk_ends_free(start, taken, k);
            assert(pending@.dom().len() == spec_hash_map_len(&pending));
        }
        self.next_id = counter;
        self.pending = pending;
        Ok(TranportMesssage { id, message: request })
    }

    /// Takes back a call whose envelope could not be written: the entry that
    /// [`send_request`](Self::send_request) filed under `id` leaves the
    /// table, and its completion handle comes back to be completed with a
    /// transport error. No entry stays behind for a request that was never
    /// sent.
    pub fn write_failed(&mut self, id: usize) -> (failed: Option<Failed<W>>)
        ensures
            old(self)@.wf(),
            final(self)@.wf(),
            final(self)@ == old(self)@.settle(id),
            failed == match old(self)@.pending.get(id) {
                Some(waiter) => Some(Failed { id, waiter, error: CallError::Transport }),
                None => None,
            },
    {
        match self.cancel(id) {
            Some(waiter) => Some(Failed { id, waiter, error: CallError::Transport }),
            None => None,
        }
    }

    /// Gives up the call under `id` on behalf of a caller that no longer
    /// waits: its entry leaves the table and its completion handle comes
    /// back. Where no call is outstanding under `id`, because its response
    /// has already been delivered, nothing changes.
    pub fn cancel(&mut self, id: usize) -> (waiter: Option<W>)
        ensures
            old(self)@.wf(),
            final(self)@.wf(),
            final(self)@ == old(self)@.settle(id),
            waiter == old(self)@.pending.get(id),
    {
        proof {
            use_type_invariant(&*self);
        }
        let mut pending: HashMap<usize, W> = HashMap::new();
        std::mem::swap(&mut self.pending, &mut pending);
        let waiter = pending.remove(&id);
        self.pending = pending;
        waiter
    }

    /// Routes a response envelope: the completion handle filed under the
    /// envelope's id leaves the table and comes back with the response.
    /// Where no call is outstanding under that id the response comes back
    /// marked as stray, to be discarded, and nothing changes.
    pub fn on_response<Response>(&mut self, envelope: TranportMesssage<Response>) -> (delivery:
        Delivery<W, Response>)
        ensures
            old(self)@.wf(),
            final(self)@.wf(),
            final(self)@ == old(self)@.settle(envelope.id),
            delivery == route_response(old(self)@.pending, envelope),
    {
        let id: usize = envelope.id;
        match self.cancel(id) {
            Some(waiter) => Delivery::Deliver { waiter, response: envelope.message },
            None => Delivery::Stray { id, response: envelope.message },
        }
    }

    /// Takes what a read of the source yielded, as the receive loop does
    /// for as long as the connection lasts. An envelope is routed as
    /// [`on_response`](Self::on_response) routes it. A failed read and the
    /// end of the source both end the connection as
    /// [`close`](Self::close) ends it: no outstanding call is left waiting.
    pub fn on_source<Response>(&mut self, incoming: Incoming<Response>) -> (received: Received<
        W,
        Response,
    >)
        ensures
            old(self)@.wf(),
            final(self)@.wf(),
            match incoming {
                Incoming::Envelope(envelope) => {
                    &&& received == Received::Routed(
                        route_response(old(self)@.pending, envelope),
                    )
                    &&& final(self)@ == old(self)@.settle(envelope.id)
                },
                _ => {
                    &&& received matches Received::Closed(failed)
                    &&& holds_exactly(failed@, old(self)@.pending)
                    &&& forall|i: int|
                        0 <= i < failed@.len() ==> (#[trigger] failed@[i]).error
                            == CallError::ConnectionClosed
                    &&& final(self)@ == old(self)@.close()
                },
            },
    {
        match incoming {
            Incoming::Envelope(envelope) => Received::Routed(self.on_response(envelope)),
            Incoming::Failed => Received::Closed(self.close()),
            Incoming::Ended => Received::Closed(self.close()),
        }
    }

    /// Stops accepting calls: an active connector becomes closing. Responses
    /// to outstanding calls are still routed.
    pub fn shutdown(&mut self)
        ensures
            old(self)@.wf(),
            final(self)@.wf(),
            final(self)@ == old(self)@.shutdown(),
    {
        proof {
            use_type_invariant(&*self);
        }
        match self.phase {
            Phase::Active => {
                self.phase = Phase::Closing;
            },
            _ => {},
        }
    }

    /// Ends the connection: the connector becomes closed, and every
    /// completion handle that was still in the table comes back, each once
    /// and with its id, to be completed with a connection-closed error. No
    /// outstanding call is left waiting.
    pub fn close(&mut self) -> (failed: Vec<Failed<W>>)
        ensures
            old(self)@.wf(),
            final(self)@.wf(),
            final(self)@ == old(self)@.close(),
            holds_exactly(failed@, old(self)@.pending),
            forall|i: int|
                0 <= i < failed@.len() ==> (#[trigger] failed@[i]).error
                    == CallError::ConnectionClosed,
    {
        proof {
            use_type_invariant(&*self);
        }
        let mut pending: HashMap<usize, W> = HashMap::new();
        std::mem::swap(&mut self.pending, &mut pending);
        self.phase = Phase::Closed;
        let ghost before = pending@;
        let mut ids: Vec<usize> = Vec::new();
        for id in it: pending.keys()
            invariant
                ids@.len() == it.index(),
                forall|j: int| 0 <= j < it.index() ==> ids@[j] == *it.seq()[j],
        {
            ids.push(*id);
        }
        proof {
            assert(ids@ =~= spec_keys_iter(&pending).remaining().unref());
        }
        let mut failed: Vec<Failed<W>> = Vec::new();
        let mut i: usize = 0;
        while i < ids.len()
            invariant
                0 <= i <= ids.len(),
                failed@.len() == i,
                ids@.no_duplicates(),
                ids@.to_set() == before.dom(),
                forall|j: int|
                    0 <= j < i ==> {
                        &&& (#[trigger] failed@[j]).id == ids@[j]
                        &&& before.contains_pair(failed@[j].id, failed@[j].waiter)
                        &&& failed@[j].error == CallError::ConnectionClosed
                    },
                forall|id: usize| #[trigger]
                    pending@.contains_key(id) <==> before.contains_key(id) && !listed_before(
                        ids@,
                        i as int,
                        id,
                    ),
                forall|id: usize| #[trigger]
                    pending@.contains_key(id) ==> pending@[id] == before[id],
            decreases ids.len() - i,
        {
            let id: usize = ids[i];
            match pending.remove(&id) {
                Some(waiter) => {
                    failed.push(Failed { id, waiter, error: CallError::ConnectionClosed });
                },
                None => {},
            }
            proof {
                assert forall|x: usize| #[trigger]
                    pending@.contains_key(x) <==> before.contains_key(x) && !listed_before(
                        ids@,
                        i + 1,
                        x,
                    ) by {
                    if listed_before(ids@, i + 1, x) {
                        let j = choose|j: int| 0 <= j < i + 1 && ids@[j] == x;
                        if j < i {
                            assert(listed_before(ids@, i as int, x));
                        }
                    }
                    if listed_before(ids@, i as int, x) || x == id {
                        assert(listed_before(ids@, i + 1, x));
                    }
                }
            }
            i = i + 1;
        }
        proof {
            assert forall|id: usize| before.contains_key(id) implies exists|j: int|
                0 <= j < failed@.len() && (#[trigger] failed@[j]).id == id by {
                let j = choose|j: int| 0 <= j < ids@.len() && ids@[j] == id;
                assert(failed@[j].id == id);
            }
            before.dom().lemma_to_seq_to_set_id();
            ids@.unique_seq_to_set();
        }
        failed
    }
}

/// Ids count up. As long as the id at the counter is free, a call gets that
/// id and the counter moves on by one; only an id that an outstanding call
/// still holds is passed over.
pub proof fn lemma_ids_count_up<W>(state: ConnectorView<W>, waiter: W)
    requires
        !state.pending.contains_key(state.next_id),
    ensures
        state.upcoming_id() == state.next_id,
        state.issue(waiter).next_id == id_after(state.next_id),
        state.issue(waiter).pending == state.pending.insert(state.next_id, waiter),
{
}

/// A call that is outstanding stays filed under its id, with its own
/// completion handle, whatever else happens on the connection: calls that
/// are issued, responses that arrive and calls that are given up under other
/// ids, in any number and any order. Only a response or a cancellation under
/// its own id takes it out of the table.
pub proof fn lemma_outstanding_call_is_undisturbed<W>(
    state: ConnectorView<W>,
    events: Seq<Event<W>>,
    id: usize,
)
    requires
        state.wf(),
        state.pending.dom().len() + events.len() <= usize::MAX,
        state.pending.contains_key(id),
        forall|k: int|
            0 <= k < events.len() ==> #[trigger] events[k] != Event::<W>::Response(id)
                && events[k] != Event::<W>::Cancel(id) && events[k] != Event::<W>::Close,
    ensures
        state.run(events).wf(),
        state.run(events).pending.dom().len() <= state.pending.dom().len() + events.len(),
        state.run(events).pending.contains_pair(id, state.pending[id]),
    decreases events.len(),
{
    if events.len() > 0 {
        let earlier = events.drop_last();
        lemma_outstanding_call_is_undisturbed(state, earlier, id);
        let before = state.run(earlier);
        if events.last() is Issue {
            lemma_fresh_id_is_free(before.next_id, before.pending.dom());
        }
    }
}

/// A connection only moves forward: from active to closing to closed, never
/// back. Whatever happens, the connector stays well formed, and once it is
/// closed it stays closed and empty: no call is accepted any more.
pub proof fn lemma_phase_only_advances<W>(state: ConnectorView<W>, events: Seq<Event<W>>)
    requires
        state.wf(),
        state.pending.dom().len() + events.len() <= usize::MAX,
    ensures
        state.run(events).wf(),
        state.run(events).pending.dom().len() <= state.pending.dom().len() + events.len(),
        state.run(events).phase.rank() >= state.phase.rank(),
        state.phase == Phase::Closed ==> state.run(events).pending == state.pending,
    decreases events.len(),
{
    if events.len() > 0 {
        let earlier = events.drop_last();
        lemma_phase_only_advances(state, earlier);
        let before = state.run(earlier);
        if events.last() is Issue {
            lemma_fresh_id_is_free(before.next_id, before.pending.dom());
        }
    }
}

/// Calls issued one after another get ids that differ from each other and
/// from the id of every call that was already outstanding, and each call's
/// completion handle is filed under its own id. No call displaces another.
pub proof fn lemma_issued_calls_are_told_apart<W>(state: ConnectorView<W>, waiters: Seq<W>)
    requires
        state.wf(),
        state.phase == Phase::Active,
        state.pending.dom().len() + waiters.len() <= usize::MAX,
    ensures
        state.issue_all(waiters).wf(),
        state.issue_all(waiters).phase == Phase::Active,
        state.issue_all(waiters).pending.dom().len() == state.pending.dom().len() + waiters.len(),
        state.issued_ids(waiters).len() == waiters.len(),
        state.issued_ids(waiters).no_duplicates(),
        forall|i: int|
            0 <= i < waiters.len() ==> {
                &&& !state.pending.contains_key(#[trigger] state.issued_ids(waiters)[i])
                &&& state.issue_all(waiters).pending.contains_pair(
                    state.issued_ids(waiters)[i],
                    waiters[i],
                )
            },
        forall|id: usize| #[trigger]
            state.pending.contains_key(id) ==> state.issue_all(waiters).pending.contains_pair(
                id,
                state.pending[id],
            ),
    decreases waiters.len(),
{
    if waiters.len() > 0 {
        let earlier = waiters.drop_last();
        lemma_issued_calls_are_told_apart(state, earlier);
        let before = state.issue_all(earlier);
        let ids = state.issued_ids(earlier);
        let id = before.upcoming_id();
        lemma_fresh_id_is_free(before.next_id, before.pending.dom());
        assert forall|i: int| 0 <= i < ids.len() implies ids[i] != id by {
            assert(before.pending.contains_key(ids[i]));
        }
        assert(state.issued_ids(waiters) == ids.push(id));
    }
}

/// Responses may arrive in any order. Whatever the order in which the
/// responses to outstanding calls come in, each response is handed to the
/// completion handle that was filed under its id: the handle of the call
/// whose request went out under that id, and of no other.
pub proof fn lemma_responses_reach_their_callers<W, Response>(
    state: ConnectorView<W>,
    arrivals: Seq<TranportMesssage<Response>>,
    k: int,
)
    requires
        state.wf(),
        0 <= k < arrivals.len(),
        forall|i: int| 0 <= i < arrivals.len() ==> state.pending.contains_key(
            (#[trigger] arrivals[i]).id,
        ),
        forall|i: int, j: int|
            0 <= i < j < arrivals.len() ==> (#[trigger] arrivals[i]).id != (
            #[trigger] arrivals[j]).id,
    ensures
        route_response(
            state.settle_all(arrivals.take(k).map_values(|e: TranportMesssage<Response>| e.id)).pending,
            arrivals[k],
        ) == (Delivery::Deliver { waiter: state.pending[arrivals[k].id], response: arrivals[k].message }),
{
    let ids = arrivals.take(k).map_values(|e: TranportMesssage<Response>| e.id);
    lemma_settled_ids_only(state, ids, arrivals[k].id);
}

/// Each call gets its own response. Let any number of calls be issued on an
/// active connector, and let the responses to them arrive in any order:
/// `order` lists the calls in the order in which their responses come in.
/// Then the response to a call is handed to the completion handle of that
/// call, whatever arrived before it.
pub proof fn lemma_each_call_gets_its_own_response<W, Response>(
    state: ConnectorView<W>,
    waiters: Seq<W>,
    responses: Seq<Response>,
    order: Seq<int>,
    k: int,
)
    requires
        state.wf(),
        state.phase == Phase::Active,
        state.pending.dom().len() + waiters.len() <= usize::MAX,
        responses.len() == waiters.len(),
        order.no_duplicates(),
        forall|i: int| 0 <= i < order.len() ==> 0 <= #[trigger] order[i] < waiters.len(),
        0 <= k < order.len(),
    ensures
        ({
            let ids = state.issued_ids(waiters);
            let arrived = Seq::new(k as nat, |i: int| ids[order[i]]);
            route_response(
                state.issue_all(waiters).settle_all(arrived).pending,
                TranportMesssage { id: ids[order[k]], message: responses[order[k]] },
            ) == (Delivery::Deliver { waiter: waiters[order[k]], response: responses[order[k]] })
        }),
{
    let ids = state.issued_ids(waiters);
    let arrived = Seq::new(k as nat, |i: int| ids[order[i]]);
    lemma_issued_calls_are_told_apart(state, waiters);
    assert forall|i: int| 0 <= i < arrived.len() implies #[trigger] arrived[i] != ids[order[k]] by {
        assert(order[i] != order[k]);
    }
    lemma_settled_ids_only(state.issue_all(waiters), arrived, ids[order[k]]);
}

/// A response is delivered once. The response that arrives under the id of
/// an outstanding call is handed to that call; whatever arrives under the
/// same id afterwards is a stray, until the id is given to a new call.
pub proof fn lemma_response_is_delivered_once<W, Response>(
    state: ConnectorView<W>,
    first: TranportMesssage<Response>,
    second: TranportMesssage<Response>,
)
    requires
        state.pending.contains_key(first.id),
        second.id == first.id,
    ensures
        route_response(state.pending, first) == (Delivery::Deliver {
            waiter: state.pending[first.id],
            response: first.message,
        }),
        route_response(state.settle(first.id).pending, second) == (Delivery::<
            W,
            Response,
        >::Stray { id: second.id, response: second.message }),
{
}

/// Responses under other ids leave the entry under `id` as it is.
proof fn lemma_settled_ids_only<W>(state: ConnectorView<W>, ids: Seq<usize>, id: usize)
    requires
        state.pending.contains_key(id),
        forall|i: int| 0 <= i < ids.len() ==> #[trigger] ids[i] != id,
    ensures
        state.settle_all(ids).pending.contains_pair(id, state.pending[id]),
    decreases ids.len(),
{
    if ids.len() > 0 {
        lemma_settled_ids_only(state, ids.drop_last(), id);
    }
}

/// A call that is given up before its response arrives leaves nothing
/// behind: the table is what it was before the call was issued, so the
/// number of outstanding calls is back where it was, and a response that
/// still arrives under the call's id is a stray to be discarded, not an
/// error.
pub proof fn lemma_cancelled_call_leaves_no_entry<W, Response>(
    state: ConnectorView<W>,
    waiter: W,
    late: Response,
)
    requires
        state.wf(),
    ensures
        state.issue(waiter).settle(state.upcoming_id()).pending == state.pending,
        state.issue(waiter).settle(state.upcoming_id()).pending.dom().len()
            == state.pending.dom().len(),
        route_response(
            state.issue(waiter).settle(state.upcoming_id()).pending,
            TranportMesssage { id: state.upcoming_id(), message: late },
        ) == (Delivery::<W, Response>::Stray { id: state.upcoming_id(), response: late }),
{
    lemma_fresh_id_is_free(state.next_id, state.pending.dom());
}

/// When the connection ends, no call is left waiting: every call that was
/// outstanding is among those handed back to be failed, and the table is
/// empty afterwards.
pub proof fn lemma_close_fails_every_call<W>(
    state: ConnectorView<W>,
    failed: Seq<Failed<W>>,
    id: usize,
)
    requires
        holds_exactly(failed, state.pending),
        state.pending.contains_key(id),
    ensures
        exists|i: int|
            0 <= i < failed.len() && (#[trigger] failed[i]).id == id && failed[i].waiter
                == state.pending[id],
        state.close().pending.dom().len() == 0,
        state.close().phase == Phase::Closed,
{
    let i = choose|i: int| 0 <= i < failed.len() && (#[trigger] failed[i]).id == id;
    assert(state.pending.contains_pair(failed[i].id, failed[i].waiter));
}

} // verus!
