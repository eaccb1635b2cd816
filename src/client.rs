//! The correlation engine: request identifiers, the table of requests that
//! wait for a response, and where each incoming message goes.

use crate::error::{LspError, ResponseError};
use crate::types::jsonrpc::{version, ResponseMessage, RpcMessage};
use crate::types::{Id, IdView};
use vstd::prelude::*;

verus! {

/// Index of the first entry for `id` at or after `i`, or -1.
pub open spec fn entry_index<W>(es: Seq<(IdView, W)>, id: IdView, i: int) -> int
    decreases es.len() - i,
{
    if i < 0 || i >= es.len() {
        -1
    } else if es[i].0 == id {
        i
    } else {
        entry_index(es, id, i + 1)
    }
}

pub open spec fn ids_unique<W>(es: Seq<(IdView, W)>) -> bool {
    forall|i: int, j: int| 0 <= i < j < es.len() ==> es[i].0 != es[j].0
}

pub open spec fn is_pending<W>(es: Seq<(IdView, W)>, id: IdView) -> bool {
    exists|i: int| 0 <= i < es.len() && es[i].0 == id
}

/// The waiter registered for `id`, if any.
pub open spec fn waiter_of<W>(es: Seq<(IdView, W)>, id: IdView) -> Option<W> {
    let i = entry_index(es, id, 0);
    if i >= 0 {
        Some(es[i].1)
    } else {
        None
    }
}

/// The table once the entry for `id`, if any, is taken out.
pub open spec fn without<W>(es: Seq<(IdView, W)>, id: IdView) -> Seq<(IdView, W)> {
    let i = entry_index(es, id, 0);
    if i >= 0 {
        es.remove(i)
    } else {
        es
    }
}

pub proof fn lemma_entry_index<W>(es: Seq<(IdView, W)>, id: IdView, i: int)
    requires
        0 <= i,
    ensures
        -1 <= entry_index(es, id, i) < es.len(),
        entry_index(es, id, i) >= 0 ==> i <= entry_index(es, id, i) && es[entry_index(
            es,
            id,
            i,
        )].0 == id,
        entry_index(es, id, i) == -1 ==> forall|k: int| i <= k < es.len() ==> es[k].0 != id,
    decreases es.len() - i,
{
    if i < es.len() && es[i].0 != id {
        lemma_entry_index(es, id, i + 1);
    }
}

pub proof fn lemma_waiter_of<W>(es: Seq<(IdView, W)>, id: IdView)
    requires
        ids_unique(es),
    ensures
        waiter_of(es, id) is Some <==> is_pending(es, id),
        forall|k: int| 0 <= k < es.len() && es[k].0 == id ==> waiter_of(es, id) == Some(es[k].1),
{
    lemma_entry_index(es, id, 0);
}

/// Taking one entry out leaves every other entry where it was.
pub proof fn lemma_without<W>(es: Seq<(IdView, W)>, id: IdView, other: IdView)
    requires
        ids_unique(es),
    ensures
        ids_unique(without(es, id)),
        other != id ==> waiter_of(without(es, id), other) == waiter_of(es, other),
        !is_pending(without(es, id), id),
        waiter_of(without(es, id), id) is None,
        other != id ==> is_pending(without(es, id), other) == is_pending(es, other),
{
    lemma_entry_index(es, id, 0);
    let rest = without(es, id);
    lemma_waiter_of(es, other);
    lemma_waiter_of(es, id);
    assert(ids_unique(rest));
    lemma_waiter_of(rest, other);
    lemma_waiter_of(rest, id);
    if is_pending(es, other) && other != id {
        let k = choose|k: int| 0 <= k < es.len() && es[k].0 == other;
        let i = entry_index(es, id, 0);
        if i >= 0 {
            if k < i {
                assert(rest[k] == es[k]);
            } else {
                assert(rest[k - 1] == es[k]);
            }
        } else {
            assert(rest[k] == es[k]);
        }
    }
    if is_pending(rest, other) && other != id {
        let k = choose|k: int| 0 <= k < rest.len() && rest[k].0 == other;
        let i = entry_index(es, id, 0);
        if i >= 0 && k >= i {
            assert(rest[k] == es[k + 1]);
        } else {
            assert(rest[k] == es[k]);
        }
    }
    if is_pending(rest, id) {
        let k = choose|k: int| 0 <= k < rest.len() && rest[k].0 == id;
        let i = entry_index(es, id, 0);
        if i >= 0 && k >= i {
            assert(rest[k] == es[k + 1]);
        } else {
            assert(rest[k] == es[k]);
        }
    }
}

/// Requests that wait for their response, each under the identifier it was
/// sent with, and the identifier the next request gets.
pub struct PendingRequests<W> {
    next_id: i64,
    entries: Vec<(Id, W)>,
}

pub open spec fn entries_view<W>(v: Seq<(Id, W)>) -> Seq<(IdView, W)> {
    v.map_values(|e: (Id, W)| (e.0@, e.1))
}

impl<W> PendingRequests<W> {
    /// The waiting requests, oldest first.
    pub closed spec fn entries(&self) -> Seq<(IdView, W)> {
        entries_view(self.entries@)
    }

    /// The number the next request identifier will carry.
    pub closed spec fn next(&self) -> int {
        self.next_id as int
    }

    /// Identifiers are unique, numbers in `1..next()`, and `next()` is positive.
    pub closed spec fn wf(&self) -> bool {
        &&& 1 <= self.next_id
        &&& ids_unique(self.entries())
        &&& forall|i: int|
            0 <= i < self.entries().len() ==> ((#[trigger] self.entries()[i]).0 matches IdView::Number(
                n,
            ) && 1 <= n < self.next_id)
    }

    pub fn new() -> (r: Self)
        ensures
            r.wf(),
            r.entries() == Seq::<(IdView, W)>::empty(),
            r.next() == 1,
    {
        let r = PendingRequests { next_id: 1, entries: Vec::new() };
        assert(r.entries() =~= Seq::<(IdView, W)>::empty());
        r
    }

    /// Allocates a fresh identifier and records `waiter` under it, before the
    /// request is written. Identifiers count up from 1 and are never reused:
    /// once they run out this fails instead of wrapping around.
    pub fn register(&mut self, waiter: W) -> (r: Result<Id, LspError>)
        requires
            old(self).wf(),
        ensures
            final(self).wf(),
            old(self).next() < i64::MAX ==> (r matches Ok(id) && id@ == IdView::Number(
                old(self).next() as i64,
            ) && !is_pending(old(self).entries(), id@) && final(self).entries() == old(self).entries().push((id@, waiter)) && final(self).next() == old(self).next() + 1),
            old(self).next() == i64::MAX ==> (r matches Err(LspError::Other(_))
                && final(self).entries() == old(self).entries()
                && final(self).next() == old(self).next()),
    {
        if self.next_id == i64::MAX {
            return Err(LspError::Other("request identifiers are exhausted".to_owned()));
        }
        let n = self.next_id;
        let ghost old_entries = self.entries();
        self.next_id = n + 1;
        self.entries.push((Id::Number(n), waiter));
        proof {
            assert(self.entries() =~= old_entries.push((IdView::Number(n), waiter)));
            if is_pending(old_entries, IdView::Number(n)) {
                let k = choose|k: int|
                    0 <= k < old_entries.len() && old_entries[k].0 == IdView::Number(n);
                assert(old_entries[k] == old(self).entries()[k]);
            }
            assert forall|i: int| 0 <= i < self.entries().len() implies ((
            #[trigger] self.entries()[i]).0 matches IdView::Number(m) && 1 <= m < self.next_id) by {
                if i < old_entries.len() {
                    assert(self.entries()[i] == old_entries[i]);
                }
            }
            assert forall|i: int, j: int| 0 <= i < j < self.entries().len() implies self.entries()[i].0
                != self.entries()[j].0 by {
                if j == old_entries.len() {
                    assert(self.entries()[i] == old_entries[i]);
                    assert(old_entries[i] == old(self).entries()[i]);
                } else {
                    assert(self.entries()[i] == old_entries[i]);
                    assert(self.entries()[j] == old_entries[j]);
                }
            }
        }
        Ok(Id::Number(n))
    }

    fn find(&self, id: &Id) -> (r: Option<usize>)
        ensures
            match r {
                Some(i) => i as int == entry_index(self.entries(), id@, 0),
                None => entry_index(self.entries(), id@, 0) == -1,
            },
    {
        let ghost es = self.entries();
        proof {
            lemma_entry_index(es, id@, 0);
        }
        let mut i: usize = 0;
        while i < self.entries.len()
            invariant
                es == self.entries(),
                es.len() == self.entries@.len(),
                i <= es.len(),
                entry_index(es, id@, 0) == entry_index(es, id@, i as int),
            decreases es.len() - i,
        {
            if self.entries[i].0 == *id {
                assert(es[i as int].0 == id@);
                return Some(i);
            }
            i = i + 1;
        }
        None
    }

    /// Takes out the waiter registered under `id`, if there is one.
    pub fn take(&mut self, id: &Id) -> (r: Option<W>)
        requires
            old(self).wf(),
        ensures
            final(self).wf(),
            r == waiter_of(old(self).entries(), id@),
            final(self).entries() == without(old(self).entries(), id@),
            final(self).next() == old(self).next(),
    {
        match self.find(id) {
            None => None,
            Some(i) => {
                let ghost es = self.entries();
                proof {
                    lemma_entry_index(es, id@, 0);
                }
                let (_, w) = self.entries.remove(i);
                proof {
                    assert(self.entries() =~= es.remove(i as int));
                    assert forall|a: int, b: int| 0 <= a < b < self.entries().len() implies self.entries()[a].0
                        != self.entries()[b].0 by {
                        let a2 = if a < i { a } else { a + 1 };
                        let b2 = if b < i { b } else { b + 1 };
                        assert(self.entries()[a] == es[a2]);
                        assert(self.entries()[b] == es[b2]);
                    }
                    assert forall|k: int| 0 <= k < self.entries().len() implies ((
                    #[trigger] self.entries()[k]).0 matches IdView::Number(m) && 1 <= m
                        < self.next_id) by {
                        let k2 = if k < i { k } else { k + 1 };
                        assert(self.entries()[k] == es[k2]);
                    }
                }
                Some(w)
            },
        }
    }

    /// Whether a request waits under `id`.
    pub fn contains(&self, id: &Id) -> (r: bool)
        requires
            self.wf(),
        ensures
            r == is_pending(self.entries(), id@),
    {
        proof {
            lemma_waiter_of(self.entries(), id@);
            lemma_entry_index(self.entries(), id@, 0);
        }
        self.find(id).is_some()
    }

    /// Drops every waiter. Nothing is sent to the peer: a request cancelled
    /// here is still running there.
    pub fn cancel_all(&mut self)
        requires
            old(self).wf(),
        ensures
            final(self).wf(),
            final(self).entries() == Seq::<(IdView, W)>::empty(),
            final(self).next() == old(self).next(),
    {
        self.entries.clear();
        assert(self.entries() =~= Seq::<(IdView, W)>::empty());
    }

    pub fn pending_request_count(&self) -> (r: usize)
        ensures
            r == self.entries().len(),
    {
        self.entries.len()
    }

    pub fn has_pending_requests(&self) -> (r: bool)
        ensures
            r == (self.entries().len() > 0),
    {
        self.entries.len() > 0
    }
}


/// Where an incoming message goes.
pub enum Route<W> {
    /// The response answers the request that waits with this waiter.
    Deliver(W, ResponseMessage),
    /// No request waits for this response, or it names none: it is dropped.
    Orphan(ResponseMessage),
    /// A request or notification from the peer, for the consumer.
    Forward(RpcMessage),
}

impl<W> PendingRequests<W> {
    /// Decides where `message` goes, taking the matching waiter out of the
    /// table when it is a response to a waiting request.
    pub fn route(&mut self, message: RpcMessage) -> (r: Route<W>)
        requires
            old(self).wf(),
        ensures
            final(self).wf(),
            final(self).next() == old(self).next(),
            match message {
                RpcMessage::Response(p) => match p.id {
                    Some(id) => match waiter_of(old(self).entries(), id@) {
                        Some(w) => r == Route::Deliver(w, p) && final(self).entries() == without(
                            old(self).entries(),
                            id@,
                        ),
                        None => r == Route::<W>::Orphan(p) && final(self).entries() == old(
                            self,
                        ).entries(),
                    },
                    None => r == Route::<W>::Orphan(p) && final(self).entries() == old(
                        self,
                    ).entries(),
                },
                _ => r == Route::<W>::Forward(message) && final(self).entries() == old(
                    self,
                ).entries(),
            },
    {
        match message {
            RpcMessage::Response(p) => {
                let found = match &p.id {
                    Some(id) => self.take(id),
                    None => None,
                };
                match found {
                    Some(w) => Route::Deliver(w, p),
                    None => {
                        proof {
                            if p.id is Some {
                                let id = p.id->0;
                                lemma_entry_index(old(self).entries(), id@, 0);
                                assert(without(old(self).entries(), id@) == old(self).entries());
                            }
                        }
                        Route::Orphan(p)
                    },
                }
            },
            _ => Route::Forward(message),
        }
    }
}

/// Whether `order[k]` already came earlier in `order`.
pub open spec fn seen_before(order: Seq<IdView>, k: int) -> bool {
    exists|j: int| 0 <= j < k && order[j] == order[k]
}

/// What each response, taken in the order given, hands over: the waiter that
/// its identifier reaches, or nothing.
pub open spec fn deliveries<W>(es: Seq<(IdView, W)>, order: Seq<IdView>) -> Seq<Option<W>>
    decreases order.len(),
{
    if order.len() == 0 {
        Seq::empty()
    } else {
        seq![waiter_of(es, order[0])] + deliveries(without(es, order[0]), order.drop_first())
    }
}

/// Responses may come back in any order: each one reaches the waiter that was
/// registered under its own identifier. One whose identifier waits nowhere
/// (never sent, or already answered) reaches nothing and leaves the others as
/// they were.
pub proof fn lemma_responses_reach_their_own_waiters<W>(es: Seq<(IdView, W)>, order: Seq<IdView>)
    requires
        ids_unique(es),
    ensures
        deliveries(es, order).len() == order.len(),
        forall|k: int|
            0 <= k < order.len() ==> #[trigger] deliveries(es, order)[k] == if seen_before(
                order,
                k,
            ) {
                None
            } else {
                waiter_of(es, order[k])
            },
    decreases order.len(),
{
    if order.len() > 0 {
        let h = order[0];
        let tail = order.drop_first();
        let rest = without(es, h);
        lemma_without(es, h, h);
        lemma_responses_reach_their_own_waiters(rest, tail);
        assert forall|k: int| 0 <= k < order.len() implies #[trigger] deliveries(es, order)[k]
            == if seen_before(order, k) {
            None
        } else {
            waiter_of(es, order[k])
        } by {
            if k > 0 {
                assert(deliveries(es, order)[k] == deliveries(rest, tail)[k - 1]);
                let x = order[k];
                assert(tail[k - 1] == x);
                lemma_without(es, h, x);
                if x == h {
                    assert(seen_before(order, k));
                } else {
                    if seen_before(order, k) {
                        let j = choose|j: int| 0 <= j < k && order[j] == order[k];
                        assert(j > 0);
                        assert(tail[j - 1] == x);
                        assert(seen_before(tail, k - 1));
                    }
                    if seen_before(tail, k - 1) {
                        let j = choose|j: int| 0 <= j < k - 1 && #[trigger] tail[j] == tail[k - 1];
                        assert(order[j + 1] == x);
                        assert(seen_before(order, k));
                    }
                }
            } else {
                assert(!seen_before(order, 0));
            }
        }
    }
}

/// Relies on `serde_json::Value::Null`: the JSON `null` value.
#[verifier::external_body]
fn json_null() -> serde_json::Value {
    serde_json::Value::Null
}

/// The response to a request from the peer: the error when there is one,
/// else the result, `null` when none is given. Exactly one of the two is set.
pub fn response_for(
    id: Id,
    result: Option<serde_json::Value>,
    error: Option<ResponseError>,
) -> (r: ResponseMessage)
    ensures
        r.jsonrpc@ == version(),
        r.id == Some(id),
        match error {
            Some(e) => r.error == Some(e) && r.result is None,
            None => r.error is None && match result {
                Some(v) => r.result == Some(v),
                None => r.result is Some,
            },
        },
{
    match error {
        Some(e) => ResponseMessage::error(Some(id), e),
        None => {
            let value = match result {
                Some(v) => v,
                None => json_null(),
            };
            ResponseMessage::success(id, value)
        },
    }
}

/// The result of the initialize handshake, from the response to `initialize`.
/// An error in the response makes it fail, whatever result is there too.
pub fn initialize_outcome(response: ResponseMessage) -> (r: Result<serde_json::Value, LspError>)
    ensures
        match response.error {
            Some(e) => r matches Err(LspError::InitializationFailed(m)) && m@
                == "Initialize request failed: "@ + e.message@,
            None => match response.result {
                Some(v) => r == Ok::<serde_json::Value, LspError>(v),
                None => r matches Err(LspError::InitializationFailed(_)),
            },
        },
{
    if let Some(e) = &response.error {
        let m = "Initialize request failed: ".to_owned().concat(e.message.as_str());
        return Err(LspError::InitializationFailed(m));
    }
    match response.result {
        Some(v) => Ok(v),
        None => Err(LspError::InitializationFailed("Initialize response missing result".to_owned())),
    }
}

} // verus!
