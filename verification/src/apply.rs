//! Carrying out planned writes: one by one, each once the one before is confirmed.

use vstd::prelude::*;

use crate::confirm::{set_line, written_line};
use crate::model::{writes_view, WriteRequest, WriteView};
use crate::output::{as_line, write_output_line};
use crate::param::ParamValue;

verus! {

/// What happens to a batch of writes.
#[derive(Clone, Copy, Debug)]
pub enum WriteEvent {
    /// It starts.
    Started,
    /// The device confirms the write that went out.
    Confirmed(ParamValue),
    /// The write that went out fails.
    Failed,
}

/// What a batch of writes does next.
pub enum WriteAction {
    /// Sends a write and waits for its outcome.
    Send(WriteRequest),
    /// Ends: all writes are confirmed.
    Finish,
    /// Ends: a write failed.
    Stop,
}

/// The view of what a batch of writes does next.
pub enum WriteActionView {
    /// Sends a write and waits for its outcome.
    Send(WriteView),
    /// Ends: all writes are confirmed.
    Finish,
    /// Ends: a write failed.
    Stop,
}

impl View for WriteAction {
    type V = WriteActionView;

    open spec fn view(&self) -> WriteActionView {
        match self {
            WriteAction::Send(w) => WriteActionView::Send(w@),
            WriteAction::Finish => WriteActionView::Finish,
            WriteAction::Stop => WriteActionView::Stop,
        }
    }
}

/// A batch of writes.
pub struct WriteBatch {
    /// The writes, in their order.
    pub writes: Vec<WriteRequest>,
    /// How many of them are confirmed.
    pub done: usize,
    /// Whether one of them failed.
    pub failed: bool,
}

/// The view of a batch of writes.
pub struct BatchView {
    /// The writes, in their order.
    pub writes: Seq<WriteView>,
    /// How many of them are confirmed.
    pub done: nat,
    /// Whether one of them failed.
    pub failed: bool,
}

impl View for WriteBatch {
    type V = BatchView;

    open spec fn view(&self) -> BatchView {
        BatchView {
            writes: writes_view(self.writes@),
            done: self.done as nat,
            failed: self.failed,
        }
    }
}

impl BatchView {
    /// What the batch does next, whatever happened before.
    pub open spec fn next(self) -> WriteActionView {
        if self.failed {
            WriteActionView::Stop
        } else if self.done < self.writes.len() {
            WriteActionView::Send(self.writes[self.done as int])
        } else {
            WriteActionView::Finish
        }
    }

    /// The batch after an event.
    pub open spec fn after(self, event: WriteEvent) -> BatchView {
        if self.next() is Send {
            match event {
                WriteEvent::Started => self,
                WriteEvent::Confirmed(_) => BatchView { done: self.done + 1, ..self },
                WriteEvent::Failed => BatchView { failed: true, ..self },
            }
        } else {
            self
        }
    }

    /// What is printed at an event: a line for each write that is confirmed.
    pub open spec fn report(self, event: WriteEvent) -> Seq<char> {
        match (self.next(), event) {
            (WriteActionView::Send(write), WriteEvent::Confirmed(value)) => as_line(
                set_line(write.name, value),
            ),
            _ => Seq::empty(),
        }
    }

    /// The batch after events, one after the other.
    pub open spec fn after_all(self, events: Seq<WriteEvent>) -> BatchView
        decreases events.len(),
    {
        if events.len() == 0 {
            self
        } else {
            self.after_all(events.drop_last()).after(events.last())
        }
    }
}

impl WriteBatch {
    /// A batch of which nothing is sent yet.
    pub fn new(writes: Vec<WriteRequest>) -> (r: WriteBatch)
        ensures
            r@ == (BatchView { writes: writes_view(writes@), done: 0, failed: false }),
    {
        WriteBatch { writes, done: 0, failed: false }
    }

    /// Takes an event, prints what there is to say of it, and gives what to do next.
    pub fn step(&mut self, event: WriteEvent, out: &mut String) -> (r: WriteAction)
        ensures
            final(self)@ == old(self)@.after(event),
            r@ == old(self)@.after(event).next(),
            final(out)@ == old(out)@ + old(self)@.report(event),
    {
        let ghost said = out@;
        assert(said + Seq::<char>::empty() =~= said);
        if !self.failed && self.done < self.writes.len() {
            match event {
                WriteEvent::Started => {},
                WriteEvent::Confirmed(value) => {
                    let line = written_line(self.writes[self.done].name.as_str(), &value);
                    write_output_line(out, line.as_str());
                    self.done = self.done + 1;
                },
                WriteEvent::Failed => {
                    self.failed = true;
                },
            }
        }
        if self.failed {
            WriteAction::Stop
        } else if self.done < self.writes.len() {
            WriteAction::Send(self.writes[self.done].clone())
        } else {
            WriteAction::Finish
        }
    }
}

/// After a write that fails nothing more is sent, whatever happens: the batch stays as it is, and
/// says nothing more.
pub proof fn law_nothing_after_a_failure(
    batch: BatchView,
    events: Seq<WriteEvent>,
    event: WriteEvent,
)
    requires
        batch.next() is Send,
    ensures
        ({
            let failed = batch.after(WriteEvent::Failed);
            &&& failed.done == batch.done
            &&& failed.after_all(events) == failed
            &&& failed.after_all(events).next() is Stop
            &&& failed.after_all(events).report(event).len() == 0
        }),
    decreases events.len(),
{
    if events.len() > 0 {
        law_nothing_after_a_failure(batch, events.drop_last(), events.last());
    }
}

/// Writes go out in their order, each once the one before is confirmed, and the batch is finished
/// once all are.
pub proof fn law_writes_go_in_order(writes: Seq<WriteView>, confirmed: Seq<WriteEvent>)
    requires
        confirmed.len() <= writes.len(),
        forall|i: int| 0 <= i < confirmed.len() ==> (#[trigger] confirmed[i]) is Confirmed,
    ensures
        ({
            let start = BatchView { writes, done: 0, failed: false };
            let batch = start.after_all(confirmed);
            &&& batch == (BatchView { done: confirmed.len(), ..start })
            &&& batch.next() == if confirmed.len() < writes.len() {
                WriteActionView::Send(writes[confirmed.len() as int])
            } else {
                WriteActionView::Finish
            }
        }),
    decreases confirmed.len(),
{
    if confirmed.len() > 0 {
        assert forall|i: int| 0 <= i < confirmed.len() - 1 implies (
        #[trigger] confirmed.drop_last()[i]) is Confirmed by {
            assert(confirmed[i] is Confirmed);
        }
        law_writes_go_in_order(writes, confirmed.drop_last());
        assert(confirmed.last() is Confirmed);
    }
}

} // verus!
