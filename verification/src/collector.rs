//! The course of a collection: listening, asking again for what is missing, and the end.

use std::collections::HashSet;
use vstd::prelude::*;

use crate::collect::{
    askable, missing_from, next_cursor, request_missing_param_indexes, update_param_collection,
    with_param, CollectionView, ReceivedParam, ReceivedView, REQUEST_BATCH,
};
use crate::param::ParamValue;
use crate::table::TextMap;
use crate::vehicle::{later, time_after};

verus! {

broadcast use vstd::std_specs::hash::group_hash_axioms;

/// The longest time of asking again, in milliseconds.
pub const RECOVERY_SPAN: u64 = 15_000;

/// The time between two rounds of asking again, in milliseconds.
pub const REQUEST_SPAN: u64 = 700;

/// A collection of parameters on its way.
pub struct ParamCollector {
    /// The parameters by their names.
    pub params: TextMap<ParamValue>,
    /// The indexes that arrived.
    pub received: HashSet<u16>,
    /// How many parameters there should be.
    pub expected: usize,
    /// How long to listen, in milliseconds.
    pub timeout: u64,
    /// When listening, or asking again, ends.
    pub deadline: u64,
    /// Whether it asks again.
    pub recovering: bool,
    /// When to ask next.
    pub next_request: u64,
    /// Where to go on asking.
    pub cursor: usize,
}

/// The view of a collection on its way.
pub struct CollectorView {
    /// What has been collected.
    pub collection: CollectionView,
    /// How long to listen, in milliseconds.
    pub timeout: u64,
    /// When listening, or asking again, ends.
    pub deadline: u64,
    /// Whether it asks again.
    pub recovering: bool,
    /// When to ask next.
    pub next_request: u64,
    /// Where to go on asking.
    pub cursor: int,
}

impl View for ParamCollector {
    type V = CollectorView;

    open spec fn view(&self) -> CollectorView {
        CollectorView {
            collection: CollectionView {
                params: self.params@,
                received: self.received@,
                expected: self.expected as nat,
            },
            timeout: self.timeout,
            deadline: self.deadline,
            recovering: self.recovering,
            next_request: self.next_request,
            cursor: self.cursor as int,
        }
    }
}

/// What a collection does next.
#[derive(Debug)]
pub enum CollectAction {
    /// Receives.
    Receive,
    /// Asks for parameters by their indexes, and receives.
    Request(Vec<i16>),
    /// Is over, with parameters.
    Done,
    /// Is over, without any.
    TimedOut,
}

/// The view of what a collection does next.
pub enum CollectActionView {
    /// Receives.
    Receive,
    /// Asks for parameters by their indexes, and receives.
    Request(Seq<i16>),
    /// Is over, with parameters.
    Done,
    /// Is over, without any.
    TimedOut,
}

impl View for CollectAction {
    type V = CollectActionView;

    open spec fn view(&self) -> CollectActionView {
        match self {
            CollectAction::Receive => CollectActionView::Receive,
            CollectAction::Request(list) => CollectActionView::Request(list@),
            CollectAction::Done => CollectActionView::Done,
            CollectAction::TimedOut => CollectActionView::TimedOut,
        }
    }
}

/// Whether as many indexes arrived as there should be.
pub open spec fn all_received(c: CollectionView) -> bool {
    c.received.len() >= c.expected
}

impl CollectorView {
    /// How a collection ends.
    pub open spec fn ended(self) -> CollectActionView {
        if self.collection.params.dom() =~= Set::<Seq<char>>::empty() {
            CollectActionView::TimedOut
        } else {
            CollectActionView::Done
        }
    }

    /// A collection that starts to ask again.
    pub open spec fn recovery_from(self, now: u64) -> CollectorView {
        CollectorView {
            recovering: true,
            deadline: later(
                now,
                if self.timeout <= RECOVERY_SPAN {
                    self.timeout
                } else {
                    RECOVERY_SPAN
                },
            ),
            next_request: now,
            cursor: 0,
            ..self
        }
    }

    /// A collection that asks again, at the given time.
    pub open spec fn recovery_at(self, now: u64) -> (CollectorView, CollectActionView) {
        let count = askable(self.collection.expected);
        let batch = missing_from(
            self.cursor as nat,
            0,
            count,
            self.collection.received,
            REQUEST_BATCH as nat,
        );
        if now >= self.deadline || all_received(self.collection) {
            (self, self.ended())
        } else if now >= self.next_request {
            (
                CollectorView {
                    next_request: later(now, REQUEST_SPAN),
                    cursor: next_cursor(batch, count),
                    ..self
                },
                CollectActionView::Request(batch),
            )
        } else {
            (self, CollectActionView::Receive)
        }
    }

    /// A collection at the given time, and what it does next.
    pub open spec fn at(self, now: u64) -> (CollectorView, CollectActionView) {
        if self.recovering {
            self.recovery_at(now)
        } else if self.collection.expected > 0 && all_received(self.collection) {
            (self, self.ended())
        } else if now < self.deadline {
            (self, CollectActionView::Receive)
        } else if self.collection.expected > 0 {
            self.recovery_from(now).recovery_at(now)
        } else {
            (self, self.ended())
        }
    }

    /// A collection after one more parameter. While it asks again, the number of parameters that
    /// there should be stays.
    pub open spec fn received(self, p: ReceivedView) -> CollectorView {
        let next = with_param(self.collection, p);
        CollectorView {
            collection: if self.recovering {
                CollectionView { expected: self.collection.expected, ..next }
            } else {
                next
            },
            ..self
        }
    }
}

impl ParamCollector {
    /// A collection that starts now.
    pub fn new(now: u64, timeout: u64) -> (r: ParamCollector)
        ensures
            r@ == (CollectorView {
                collection: CollectionView {
                    params: Map::empty(),
                    received: Set::empty(),
                    expected: 0,
                },
                timeout,
                deadline: later(now, timeout),
                recovering: false,
                next_request: now,
                cursor: 0,
            }),
    {
        ParamCollector {
            params: TextMap::new(),
            received: HashSet::new(),
            expected: 0,
            timeout,
            deadline: time_after(now, timeout),
            recovering: false,
            next_request: now,
            cursor: 0,
        }
    }

    fn end(&self) -> (r: CollectAction)
        ensures
            r@ == self@.ended(),
    {
        if self.params.is_empty() {
            CollectAction::TimedOut
        } else {
            CollectAction::Done
        }
    }

    fn recover(&mut self, now: u64) -> (r: CollectAction)
        ensures
            (final(self)@, r@) == old(self)@.recovery_at(now),
    {
        if now >= self.deadline || self.received.len() >= self.expected {
            return self.end();
        }
        if now >= self.next_request {
            let batch = request_missing_param_indexes(
                self.expected,
                &self.received,
                &mut self.cursor,
            );
            self.next_request = time_after(now, REQUEST_SPAN);
            CollectAction::Request(batch)
        } else {
            CollectAction::Receive
        }
    }

    /// What to do next at the given time.
    pub fn poll(&mut self, now: u64) -> (r: CollectAction)
        ensures
            (final(self)@, r@) == old(self)@.at(now),
    {
        if self.recovering {
            return self.recover(now);
        }
        if self.expected > 0 && self.received.len() >= self.expected {
            return self.end();
        }
        if now < self.deadline {
            return CollectAction::Receive;
        }
        if self.expected > 0 {
            self.recovering = true;
            self.deadline = time_after(
                now,
                if self.timeout <= RECOVERY_SPAN {
                    self.timeout
                } else {
                    RECOVERY_SPAN
                },
            );
            self.next_request = now;
            self.cursor = 0;
            return self.recover(now);
        }
        self.end()
    }

    /// Takes in a parameter.
    pub fn receive(&mut self, param: ReceivedParam)
        ensures
            final(self)@ == old(self)@.received(param@),
    {
        let expected: usize = self.expected;
        update_param_collection(param, &mut self.params, &mut self.received, &mut self.expected);
        if self.recovering {
            self.expected = expected;
        }
    }
}

/// A collection that is over while it listens has as many indexes as there should be, or its time
/// is up.
pub proof fn law_listening_ends_rightly(c: CollectorView, now: u64)
    requires
        !c.recovering,
        c.at(now).1 is Done,
    ensures
        (c.collection.expected > 0 && all_received(c.collection)) || now >= c.deadline,
{
}

/// Asking again starts at once when the time for listening is up and something is missing.
pub proof fn law_recovery_asks_at_once(c: CollectorView, now: u64)
    requires
        !c.recovering,
        now >= c.deadline,
        c.collection.expected > 0,
        !all_received(c.collection),
        0 < c.timeout,
        now < u64::MAX,
    ensures
        c.at(now).1 is Request,
        c.at(now).0.recovering,
{
}

/// No parameter is lost: what was collected stays, or is replaced by a newer value of the same
/// name.
pub proof fn law_collection_grows(c: CollectorView, p: ReceivedView, name: Seq<char>)
    requires
        c.collection.params.dom().contains(name),
    ensures
        c.received(p).collection.params.dom().contains(name),
        p.name != name ==> c.received(p).collection.params[name] == c.collection.params[name],
{
}

} // verus!
