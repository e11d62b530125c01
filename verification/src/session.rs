//! A session of the terminal interface: keys come in, writes go out, and their outcomes come back.

use vstd::prelude::*;

use crate::model::{writes_view, WriteRequest, WriteView};
use crate::numeral::{decimal, decimal_text};
use crate::param::ParamValue;
use crate::tui::{handle_key, ActionView, AppView, KeyEvent, TuiAction, TuiApp, TuiMode};

verus! {

/// The writes that are under way.
pub enum Job {
    /// None.
    Idle,
    /// One write.
    Single(WriteRequest),
    /// Several writes, and how many of them are done.
    Batch(Vec<WriteRequest>, usize),
}

/// The view of the writes that are under way.
pub enum JobView {
    /// None.
    Idle,
    /// One write.
    Single(WriteView),
    /// Several writes, and how many of them are done.
    Batch(Seq<WriteView>, usize),
}

impl View for Job {
    type V = JobView;

    open spec fn view(&self) -> JobView {
        match self {
            Job::Idle => JobView::Idle,
            Job::Single(w) => JobView::Single(w@),
            Job::Batch(ws, done) => JobView::Batch(writes_view(ws@), *done),
        }
    }
}

/// What happens to a session.
pub enum LoopEvent {
    /// A key is pressed.
    Key(KeyEvent),
    /// The device confirms the write that went out.
    Confirmed(ParamValue),
    /// The write that went out fails, for the given reason.
    Failed(String),
}

/// The view of an event.
pub enum EventView {
    /// A key is pressed.
    Key(KeyEvent),
    /// The device confirms the write that went out.
    Confirmed(ParamValue),
    /// The write that went out fails, for the given reason.
    Failed(Seq<char>),
}

impl View for LoopEvent {
    type V = EventView;

    open spec fn view(&self) -> EventView {
        match self {
            LoopEvent::Key(k) => EventView::Key(*k),
            LoopEvent::Confirmed(p) => EventView::Confirmed(*p),
            LoopEvent::Failed(s) => EventView::Failed(s@),
        }
    }
}

/// What a session does next.
pub enum LoopAction {
    /// Draws, and waits for a key.
    Wait,
    /// Ends.
    Quit,
    /// Announces a write, draws, sends it and waits for its outcome.
    Send(WriteRequest),
}

/// The view of what a session does next.
pub enum LoopActionView {
    /// Draws, and waits for a key.
    Wait,
    /// Ends.
    Quit,
    /// Announces a write, draws, sends it and waits for its outcome.
    Send(WriteView),
}

impl View for LoopAction {
    type V = LoopActionView;

    open spec fn view(&self) -> LoopActionView {
        match self {
            LoopAction::Wait => LoopActionView::Wait,
            LoopAction::Quit => LoopActionView::Quit,
            LoopAction::Send(w) => LoopActionView::Send(w@),
        }
    }
}

/// A session of the terminal interface.
pub struct TuiSession {
    /// The state of the interface.
    pub app: TuiApp,
    /// The writes that are under way.
    pub job: Job,
}

/// The view of a session.
pub struct SessionView {
    /// The state of the interface.
    pub app: AppView,
    /// The writes that are under way.
    pub job: JobView,
}

impl View for TuiSession {
    type V = SessionView;

    open spec fn view(&self) -> SessionView {
        SessionView { app: self.app@, job: self.job@ }
    }
}

/// The message at the end of a batch.
pub open spec fn batch_done(app: AppView, total: nat) -> AppView {
    app.saying("Reset "@ + decimal(total) + " parameter(s) to PX4 baseline"@)
}

impl SessionView {
    /// A session after a key.
    pub open spec fn after_key(self, key: KeyEvent) -> (SessionView, LoopActionView) {
        let (app, action) = self.app.after_key(key);
        match action {
            ActionView::Continue => (SessionView { app, ..self }, LoopActionView::Wait),
            ActionView::Quit => (SessionView { app, ..self }, LoopActionView::Quit),
            ActionView::Write(w) => (
                SessionView { app, job: JobView::Single(w) },
                LoopActionView::Send(w),
            ),
            ActionView::WriteMany(ws) => {
                let app = AppView { mode: TuiMode::Browse, pending_writes: Seq::empty(), ..app };
                if ws.len() == 0 {
                    (
                        SessionView { app: batch_done(app, 0), job: JobView::Idle },
                        LoopActionView::Wait,
                    )
                } else {
                    (SessionView { app, job: JobView::Batch(ws, 0) }, LoopActionView::Send(ws[0]))
                }
            },
        }
    }

    /// A session after the device confirmed the write.
    pub open spec fn after_confirmed(self, confirmed: ParamValue) -> (SessionView, LoopActionView) {
        match self.job {
            JobView::Idle => (self, LoopActionView::Wait),
            JobView::Single(_) => (
                SessionView {
                    app: AppView {
                        mode: TuiMode::Browse,
                        edit_value: Seq::empty(),
                        ..self.app.selected_updated(confirmed)
                    },
                    job: JobView::Idle,
                },
                LoopActionView::Wait,
            ),
            JobView::Batch(ws, done) => if done >= ws.len() {
                (self, LoopActionView::Wait)
            } else {
                let app = self.app.named_updated(ws[done as int].name, confirmed);
                if done + 1 == ws.len() {
                    (
                        SessionView { app: batch_done(app, ws.len()), job: JobView::Idle },
                        LoopActionView::Wait,
                    )
                } else {
                    (
                        SessionView { app, job: JobView::Batch(ws, (done + 1) as usize) },
                        LoopActionView::Send(ws[done + 1]),
                    )
                }
            },
        }
    }

    /// A session after the write failed.
    pub open spec fn after_failed(self, reason: Seq<char>) -> (SessionView, LoopActionView) {
        match self.job {
            JobView::Idle => (self, LoopActionView::Wait),
            JobView::Single(_) => (
                SessionView {
                    app: AppView {
                        mode: TuiMode::Browse,
                        ..self.app.saying("Write failed: "@ + reason)
                    },
                    job: JobView::Idle,
                },
                LoopActionView::Wait,
            ),
            JobView::Batch(ws, done) => if done >= ws.len() {
                (self, LoopActionView::Wait)
            } else {
                (
                    SessionView {
                        app: self.app.saying(
                            "Stopped after "@ + decimal(done as nat) + "/"@ + decimal(ws.len())
                                + " writes. "@ + ws[done as int].name + " failed: "@ + reason,
                        ),
                        job: JobView::Idle,
                    },
                    LoopActionView::Wait,
                )
            },
        }
    }

    /// A session after an event, and what it does next.
    pub open spec fn after_event(self, event: EventView) -> (SessionView, LoopActionView) {
        match event {
            EventView::Key(key) => self.after_key(key),
            EventView::Confirmed(p) => self.after_confirmed(p),
            EventView::Failed(reason) => self.after_failed(reason),
        }
    }

    /// The message that announces the write under way, with its value as text.
    pub open spec fn announcement(self, value: Seq<char>) -> Seq<char> {
        match self.job {
            JobView::Idle => self.app.status_message,
            JobView::Single(w) => "Writing "@ + w.name + " = "@ + value + "..."@,
            JobView::Batch(ws, done) => if done >= ws.len() {
                self.app.status_message
            } else {
                "Writing "@ + decimal((done + 1) as nat) + "/"@ + decimal(ws.len()) + ": "@
                    + ws[done as int].name + " = "@ + value + "..."@
            },
        }
    }
}

impl TuiSession {
    /// A session with nothing under way.
    pub fn new(app: TuiApp) -> (r: TuiSession)
        ensures
            r@ == (SessionView { app: app@, job: JobView::Idle }),
    {
        TuiSession { app, job: Job::Idle }
    }

    /// Announces the write that is under way; `value` is its value as text.
    pub fn announce(&mut self, value: &str)
        ensures
            final(self)@ == (SessionView {
                app: old(self)@.app.saying(old(self)@.announcement(value@)),
                ..old(self)@
            }),
    {
        let message = match &self.job {
            Job::Idle => {
                return ;
            },
            Job::Single(w) => {
                let mut out = String::from_str("Writing ");
                out.append(w.name.as_str());
                out.append(" = ");
                out.append(value);
                out.append("...");
                out
            },
            Job::Batch(ws, done) => {
                if *done >= ws.len() {
                    return ;
                }
                let mut out = String::from_str("Writing ");
                let n = decimal_text(*done as u128 + 1);
                out.append(n.as_str());
                out.append("/");
                let n = decimal_text(ws.len() as u128);
                out.append(n.as_str());
                out.append(": ");
                out.append(ws[*done].name.as_str());
                out.append(" = ");
                out.append(value);
                out.append("...");
                out
            },
        };
        self.app.status_message = message;
    }

    fn finish_batch(&mut self, total: usize)
        ensures
            final(self)@ == (SessionView {
                app: batch_done(old(self)@.app, total as nat),
                job: JobView::Idle,
            }),
    {
        let mut out = String::from_str("Reset ");
        let n = decimal_text(total as u128);
        out.append(n.as_str());
        out.append(" parameter(s) to PX4 baseline");
        self.app.status_message = out;
        self.job = Job::Idle;
    }

    fn take_key(&mut self, key: KeyEvent) -> (r: LoopAction)
        ensures
            (final(self)@, r@) == old(self)@.after_key(key),
    {
        match handle_key(&mut self.app, key) {
            TuiAction::Continue => LoopAction::Wait,
            TuiAction::Quit => LoopAction::Quit,
            TuiAction::Write(w) => {
                let copy = w.clone();
                self.job = Job::Single(w);
                LoopAction::Send(copy)
            },
            TuiAction::WriteMany(ws) => {
                self.app.mode = TuiMode::Browse;
                self.app.pending_writes = Vec::new();
                assert(self.app@.pending_writes =~= Seq::empty());
                if ws.len() == 0 {
                    self.finish_batch(0);
                    LoopAction::Wait
                } else {
                    let first = ws[0].clone();
                    self.job = Job::Batch(ws, 0);
                    LoopAction::Send(first)
                }
            },
        }
    }

    fn take_confirmed(&mut self, confirmed: ParamValue) -> (r: LoopAction)
        ensures
            (final(self)@, r@) == old(self)@.after_confirmed(confirmed),
    {
        let mut job = Job::Idle;
        std::mem::swap(&mut self.job, &mut job);
        match job {
            Job::Idle => LoopAction::Wait,
            Job::Single(_) => {
                self.app.update_selected_value(confirmed);
                self.app.mode = TuiMode::Browse;
                self.app.edit_value = String::new();
                LoopAction::Wait
            },
            Job::Batch(ws, done) => {
                if done >= ws.len() {
                    self.job = Job::Batch(ws, done);
                    return LoopAction::Wait;
                }
                self.app.update_value_by_name(ws[done].name.as_str(), confirmed);
                if done + 1 == ws.len() {
                    self.finish_batch(ws.len());
                    LoopAction::Wait
                } else {
                    let next = ws[done + 1].clone();
                    self.job = Job::Batch(ws, done + 1);
                    LoopAction::Send(next)
                }
            },
        }
    }

    fn take_failed(&mut self, reason: &str) -> (r: LoopAction)
        ensures
            (final(self)@, r@) == old(self)@.after_failed(reason@),
    {
        let mut job = Job::Idle;
        std::mem::swap(&mut self.job, &mut job);
        match job {
            Job::Idle => {},
            Job::Single(_) => {
                let mut out = String::from_str("Write failed: ");
                out.append(reason);
                self.app.status_message = out;
                self.app.mode = TuiMode::Browse;
            },
            Job::Batch(ws, done) => {
                if done >= ws.len() {
                    self.job = Job::Batch(ws, done);
                    return LoopAction::Wait;
                }
                let mut out = String::from_str("Stopped after ");
                let n = decimal_text(done as u128);
                out.append(n.as_str());
                out.append("/");
                let n = decimal_text(ws.len() as u128);
                out.append(n.as_str());
                out.append(" writes. ");
                out.append(ws[done].name.as_str());
                out.append(" failed: ");
                out.append(reason);
                self.app.status_message = out;
            },
        }
        LoopAction::Wait
    }

    /// Takes an event, and gives what to do next.
    pub fn step(&mut self, event: LoopEvent) -> (r: LoopAction)
        ensures
            (final(self)@, r@) == old(self)@.after_event(event@),
    {
        match event {
            LoopEvent::Key(key) => self.take_key(key),
            LoopEvent::Confirmed(p) => self.take_confirmed(p),
            LoopEvent::Failed(reason) => self.take_failed(reason.as_str()),
        }
    }
}

/// The first write of a batch that fails ends it: nothing more is sent.
pub proof fn law_failure_stops(session: SessionView, reason: Seq<char>)
    requires
        session.job matches JobView::Batch(ws, done) ==> done < ws.len(),
    ensures
        session.after_failed(reason).0.job is Idle,
        session.after_failed(reason).1 is Wait,
        session.after_failed(reason).0.app.rows == session.app.rows,
{
}

/// A batch sends its writes one by one in their order, each once the one before is confirmed, and
/// says at the end that all are done.
pub proof fn law_batch_goes_on(
    session: SessionView,
    writes: Seq<WriteView>,
    done: usize,
    confirmed: ParamValue,
)
    requires
        session.job == JobView::Batch(writes, done),
        done < writes.len() <= usize::MAX,
    ensures
        done + 1 < writes.len() ==> session.after_confirmed(confirmed).1 == LoopActionView::Send(
            writes[done + 1],
        ) && session.after_confirmed(confirmed).0.job == JobView::Batch(writes, (done + 1) as usize),
        done + 1 == writes.len() ==> session.after_confirmed(confirmed).1 is Wait
            && session.after_confirmed(confirmed).0.job is Idle,
{
}

/// Nothing is sent but what a key asked for: while nothing is under way, only a key starts a write.
pub proof fn law_idle_sends_nothing(session: SessionView, event: EventView)
    requires
        session.job is Idle,
        !(event is Key),
    ensures
        session.after_event(event) == (session, LoopActionView::Wait),
{
}

} // verus!
