//! The loader's side of a scan, as a machine that is told what happened and
//! says what to do next. Whoever drives it reads the files, polls for a
//! cancellation and sends what is to be sent.

use vstd::prelude::*;
use crate::loader::{outcome_view, AssetView, DecodeError, DecodedAsset};
use crate::scan::CandidatePath;

verus! {

/// Where the worker stands.
#[derive(Clone, Copy, Debug, PartialEq, Eq, Structural)]
pub enum Phase {
    /// Not started.
    Idle,
    /// Waiting for a file to be loaded.
    Loading,
    /// Holding an asset, waiting to hear whether the scan was called off.
    Polling,
    /// Waiting for an asset to be sent.
    Sending,
    /// Waiting for the end of the scan to be sent.
    Completing,
    /// At its end.
    Done,
}

/// What the worker is told.
#[derive(Debug)]
pub enum WorkerEvent {
    /// The scan starts.
    Started,
    /// The file that was asked for gave this.
    Loaded(Result<DecodedAsset, DecodeError>),
    /// Whether a cancellation was pending.
    Polled(bool),
    /// What was to be sent has been sent.
    Sent,
}

/// What the worker asks for.
#[derive(Debug)]
pub enum WorkerAction {
    /// Load the candidate with this index.
    Load(usize),
    /// Look, without waiting, whether a cancellation is pending.
    PollCancel,
    /// Send this asset.
    Send(DecodedAsset),
    /// Send `ScanComplete`.
    SendComplete,
    /// Return.
    Stop,
}

/// What a `WorkerEvent` holds, as plain values.
pub enum EventView {
    Started,
    Loaded(Result<AssetView, DecodeError>),
    Polled(bool),
    Sent,
}

/// What a `WorkerAction` holds, as plain values.
pub enum ActionView {
    Load(int),
    PollCancel,
    Send(AssetView),
    SendComplete,
    Stop,
}

impl View for WorkerEvent {
    type V = EventView;

    open spec fn view(&self) -> EventView {
        match *self {
            WorkerEvent::Started => EventView::Started,
            WorkerEvent::Loaded(outcome) => EventView::Loaded(outcome_view(outcome)),
            WorkerEvent::Polled(pending) => EventView::Polled(pending),
            WorkerEvent::Sent => EventView::Sent,
        }
    }
}

impl View for WorkerAction {
    type V = ActionView;

    open spec fn view(&self) -> ActionView {
        match *self {
            WorkerAction::Load(index) => ActionView::Load(index as int),
            WorkerAction::PollCancel => ActionView::PollCancel,
            WorkerAction::Send(asset) => ActionView::Send(asset@),
            WorkerAction::SendComplete => ActionView::SendComplete,
            WorkerAction::Stop => ActionView::Stop,
        }
    }
}

/// The state of a worker, as plain values.
pub struct WorkerView {
    /// How many candidates there are.
    pub total: int,
    /// The index of the candidate that is next, or in work.
    pub next: int,
    pub phase: Phase,
    /// The asset that was loaded and not sent yet.
    pub held: Option<AssetView>,
    /// How many candidates gave no asset.
    pub skipped: int,
    /// Whether the scan was called off.
    pub cancelled: bool,
}

impl WorkerView {
    /// A worker that has not started.
    pub open spec fn initial(total: int) -> WorkerView {
        WorkerView {
            total,
            next: 0,
            phase: Phase::Idle,
            held: None,
            skipped: 0,
            cancelled: false,
        }
    }

    /// The worker at its end, with nothing to do.
    pub open spec fn stopped(self) -> (WorkerView, ActionView) {
        (WorkerView { phase: Phase::Done, held: None, ..self }, ActionView::Stop)
    }

    /// On to the candidate that is next; after the last one, on to the end
    /// of the scan.
    pub open spec fn advance(self) -> (WorkerView, ActionView) {
        if self.next < self.total {
            (WorkerView { phase: Phase::Loading, held: None, ..self }, ActionView::Load(self.next))
        } else {
            (WorkerView { phase: Phase::Completing, held: None, ..self }, ActionView::SendComplete)
        }
    }

    /// How many files have been counted as giving no asset after one more,
    /// held at the most that a `usize` counts.
    pub open spec fn one_more_skipped(self) -> int {
        if self.skipped < usize::MAX {
            self.skipped + 1
        } else {
            self.skipped
        }
    }

    /// The state after an event, and what the worker asks for then.
    ///
    /// Candidates are loaded in order. A file that gives no asset is
    /// counted and passed over. Before an asset is sent the worker asks
    /// whether the scan was called off; if it was, the worker stops at once
    /// and sends nothing more. After the last candidate `ScanComplete` is
    /// sent, and the worker stops. An event that the worker does not wait
    /// for stops it too.
    pub open spec fn step(self, event: EventView) -> (WorkerView, ActionView) {
        match (self.phase, event) {
            (Phase::Idle, EventView::Started) => self.advance(),
            (Phase::Loading, EventView::Loaded(Ok(asset))) => (
                WorkerView { phase: Phase::Polling, held: Some(asset), ..self },
                ActionView::PollCancel,
            ),
            (Phase::Loading, EventView::Loaded(Err(_))) => if self.next < self.total {
                (WorkerView { next: self.next + 1, skipped: self.one_more_skipped(), ..self }).advance()
            } else {
                self.stopped()
            },
            (Phase::Polling, EventView::Polled(pending)) => match self.held {
                Some(asset) => if pending {
                    (WorkerView { cancelled: true, ..self }).stopped()
                } else {
                    (WorkerView { phase: Phase::Sending, held: None, ..self }, ActionView::Send(asset))
                },
                None => self.stopped(),
            },
            (Phase::Sending, EventView::Sent) => if self.next < self.total {
                (WorkerView { next: self.next + 1, ..self }).advance()
            } else {
                self.stopped()
            },
            _ => self.stopped(),
        }
    }

    /// What the worker asks for, event by event.
    pub open spec fn run(self, events: Seq<EventView>) -> Seq<ActionView>
        decreases events.len(),
    {
        if events.len() == 0 {
            Seq::empty()
        } else {
            seq![self.step(events[0]).1] + self.step(events[0]).0.run(events.drop_first())
        }
    }

    /// The state after all of `events`.
    pub open spec fn after(self, events: Seq<EventView>) -> WorkerView
        decreases events.len(),
    {
        if events.len() == 0 {
            self
        } else {
            self.step(events[0]).0.after(events.drop_first())
        }
    }
}

/// Whether an action sends a message.
pub open spec fn is_message(action: ActionView) -> bool {
    action is Send || action is SendComplete
}

/// A worker at its end stays there and asks for nothing more.
pub proof fn lemma_done_is_final(worker: WorkerView, event: EventView)
    requires
        worker.phase == Phase::Done,
    ensures
        worker.step(event).0.phase == Phase::Done,
        worker.step(event).1 == ActionView::Stop,
{
}

/// Once a worker is at its end, or waits for the end of the scan to be
/// sent, no run sends a message.
pub proof fn lemma_silent_after_end(worker: WorkerView, events: Seq<EventView>, k: int)
    requires
        worker.phase == Phase::Done || worker.phase == Phase::Completing,
        0 <= k < events.len(),
    ensures
        worker.run(events).len() == events.len(),
        !is_message(worker.run(events)[k]),
    decreases events.len(),
{
    lemma_run_len(worker, events);
    let next = worker.step(events[0]).0;
    assert(next.phase == Phase::Done);
    if k > 0 {
        lemma_silent_after_end(next, events.drop_first(), k - 1);
    }
}

/// A run asks for one thing for each event.
pub proof fn lemma_run_len(worker: WorkerView, events: Seq<EventView>)
    ensures
        worker.run(events).len() == events.len(),
    decreases events.len(),
{
    if events.len() > 0 {
        lemma_run_len(worker.step(events[0]).0, events.drop_first());
    }
}

/// `ScanComplete` comes last and once: after the worker asked for it to be
/// sent, it asks for no message any more.
pub proof fn lemma_complete_is_last(worker: WorkerView, events: Seq<EventView>, i: int, j: int)
    requires
        0 <= i < j < events.len(),
        worker.run(events)[i] is SendComplete,
    ensures
        !is_message(worker.run(events)[j]),
    decreases events.len(),
{
    lemma_run_len(worker, events);
    let next = worker.step(events[0]).0;
    let rest = events.drop_first();
    lemma_run_len(next, rest);
    if i == 0 {
        assert(next.phase == Phase::Completing);
        lemma_silent_after_end(next, rest, j - 1);
    } else {
        lemma_complete_is_last(next, rest, i - 1, j - 1);
    }
}

/// `ScanComplete` is asked for only when every candidate has had its turn
/// and the scan was not called off before.
pub proof fn lemma_complete_after_all(worker: WorkerView, event: EventView)
    requires
        worker.step(event).1 is SendComplete,
    ensures
        worker.step(event).0.next >= worker.total,
        worker.step(event).0.cancelled == worker.cancelled,
        worker.phase != Phase::Done,
{
}

/// After a cancellation the worker asks for no message: the step that
/// learns of it stops the worker, and every later step does.
pub proof fn lemma_cancel_stops(worker: WorkerView, events: Seq<EventView>, k: int)
    requires
        worker.phase == Phase::Polling,
        events.len() > 0,
        events[0] == EventView::Polled(true),
        0 <= k < events.len(),
    ensures
        worker.run(events).len() == events.len(),
        !is_message(worker.run(events)[k]),
{
    lemma_run_len(worker, events);
    let next = worker.step(events[0]).0;
    assert(next.phase == Phase::Done);
    if k > 0 {
        lemma_run_len(next, events.drop_first());
        lemma_silent_after_end(next, events.drop_first(), k - 1);
    }
}

/// What a driver that does as it is asked tells the worker about one
/// candidate, no cancellation pending: an asset is loaded, polled for and
/// sent; a failure is reported and that is all.
pub open spec fn events_for(outcome: Result<AssetView, DecodeError>) -> Seq<EventView> {
    match outcome {
        Ok(asset) => seq![
            EventView::Loaded(Ok(asset)),
            EventView::Polled(false),
            EventView::Sent,
        ],
        Err(e) => seq![EventView::Loaded(Err(e))],
    }
}

/// What such a driver tells the worker from the first candidate on, the
/// loading of the candidates giving `outcomes`: the events of each
/// candidate in turn, and at last that `ScanComplete` was sent.
pub open spec fn scan_events(outcomes: Seq<Result<AssetView, DecodeError>>) -> Seq<EventView>
    decreases outcomes.len(),
{
    if outcomes.len() == 0 {
        seq![EventView::Sent]
    } else {
        events_for(outcomes[0]) + scan_events(outcomes.drop_first())
    }
}

/// The messages that a sequence of actions sends, in their order.
pub open spec fn messages(actions: Seq<ActionView>) -> Seq<AssetView>
    decreases actions.len(),
{
    if actions.len() == 0 {
        Seq::empty()
    } else {
        match actions[0] {
            ActionView::Send(asset) => seq![asset] + messages(actions.drop_first()),
            ActionView::SendComplete => seq![AssetView::ScanComplete] + messages(
                actions.drop_first(),
            ),
            _ => messages(actions.drop_first()),
        }
    }
}

/// The assets among the outcomes, in their order, and `ScanComplete` after
/// them.
pub open spec fn assets_then_complete(outcomes: Seq<Result<AssetView, DecodeError>>) -> Seq<
    AssetView,
>
    decreases outcomes.len(),
{
    if outcomes.len() == 0 {
        seq![AssetView::ScanComplete]
    } else {
        match outcomes[0] {
            Ok(asset) => seq![asset] + assets_then_complete(outcomes.drop_first()),
            Err(_) => assets_then_complete(outcomes.drop_first()),
        }
    }
}

/// A run over events that start with `first`.
proof fn lemma_run_unfold(worker: WorkerView, first: EventView, rest: Seq<EventView>)
    ensures
        worker.run(seq![first] + rest) == seq![worker.step(first).1] + worker.step(first).0.run(
            rest,
        ),
{
    let events = seq![first] + rest;
    assert(events[0] == first);
    assert(events.drop_first() =~= rest);
}

/// The messages of actions that start with `first`.
proof fn lemma_messages_unfold(first: ActionView, rest: Seq<ActionView>)
    ensures
        messages(seq![first] + rest) == match first {
            ActionView::Send(asset) => seq![asset] + messages(rest),
            ActionView::SendComplete => seq![AssetView::ScanComplete] + messages(rest),
            _ => messages(rest),
        },
{
    let actions = seq![first] + rest;
    assert(actions[0] == first);
    assert(actions.drop_first() =~= rest);
}

/// From any candidate on, a worker that is driven as it asks and not called
/// off sends the assets that are loaded, in the order of the candidates,
/// and then `ScanComplete`.
proof fn lemma_scan_from(worker: WorkerView, outcomes: Seq<Result<AssetView, DecodeError>>)
    requires
        0 <= worker.next,
        worker.next + outcomes.len() == worker.total,
    ensures
        messages(seq![worker.advance().1] + worker.advance().0.run(scan_events(outcomes)))
            == assets_then_complete(outcomes),
    decreases outcomes.len(),
{
    let started = worker.advance().0;
    let asked = worker.advance().1;
    if outcomes.len() == 0 {
        let last = seq![EventView::Sent];
        assert(last == seq![EventView::Sent] + Seq::<EventView>::empty());
        lemma_run_unfold(started, EventView::Sent, Seq::empty());
        let stop = started.step(EventView::Sent).1;
        assert(stop == ActionView::Stop);
        assert(started.step(EventView::Sent).0.run(Seq::<EventView>::empty()) =~= Seq::<
            ActionView,
        >::empty());
        lemma_messages_unfold(asked, seq![stop] + Seq::<ActionView>::empty());
        lemma_messages_unfold(stop, Seq::empty());
        assert(messages(Seq::<ActionView>::empty()) =~= Seq::<AssetView>::empty());
        assert(seq![AssetView::ScanComplete] + Seq::<AssetView>::empty() =~= seq![
            AssetView::ScanComplete,
        ]);
    } else {
        let rest = outcomes.drop_first();
        let later = scan_events(rest);
        assert(asked == ActionView::Load(worker.next));
        match outcomes[0] {
            Ok(asset) => {
                let e1 = EventView::Loaded(Ok(asset));
                let e2 = EventView::Polled(false);
                let e3 = EventView::Sent;
                assert(scan_events(outcomes) =~= seq![e1] + (seq![e2] + (seq![e3] + later)));
                let w1 = started.step(e1).0;
                let w2 = w1.step(e2).0;
                let moved = WorkerView { next: w2.next + 1, ..w2 };
                lemma_run_unfold(started, e1, seq![e2] + (seq![e3] + later));
                lemma_run_unfold(w1, e2, seq![e3] + later);
                lemma_run_unfold(w2, e3, later);
                assert(w2.step(e3) == moved.advance());
                lemma_scan_from(moved, rest);
                let tail = seq![moved.advance().1] + moved.advance().0.run(later);
                lemma_messages_unfold(
                    asked,
                    seq![ActionView::PollCancel] + (seq![ActionView::Send(asset)] + tail),
                );
                lemma_messages_unfold(
                    ActionView::PollCancel,
                    seq![ActionView::Send(asset)] + tail,
                );
                lemma_messages_unfold(ActionView::Send(asset), tail);
            },
            Err(e) => {
                let e1 = EventView::Loaded(Err(e));
                assert(scan_events(outcomes) =~= seq![e1] + later);
                let moved = WorkerView {
                    next: started.next + 1,
                    skipped: started.one_more_skipped(),
                    ..started
                };
                lemma_run_unfold(started, e1, later);
                assert(started.step(e1) == moved.advance());
                lemma_scan_from(moved, rest);
                let tail = seq![moved.advance().1] + moved.advance().0.run(later);
                lemma_messages_unfold(asked, tail);
            },
        }
    }
}

/// A whole scan: a worker that is driven as it asks and not called off
/// sends one message for each candidate that gave an asset, in the order of
/// the candidates, then `ScanComplete`, once, and nothing else.
pub proof fn lemma_scan_sends_all_then_complete(outcomes: Seq<Result<AssetView, DecodeError>>)
    ensures
        messages(
            WorkerView::initial(outcomes.len() as int).run(
                seq![EventView::Started] + scan_events(outcomes),
            ),
        ) == assets_then_complete(outcomes),
{
    let worker = WorkerView::initial(outcomes.len() as int);
    lemma_run_unfold(worker, EventView::Started, scan_events(outcomes));
    assert(worker.step(EventView::Started) == worker.advance());
    lemma_scan_from(worker, outcomes);
}

/// The loader's side of one scan.
#[derive(Debug)]
pub struct Worker {
    candidates: Vec<CandidatePath>,
    next: usize,
    phase: Phase,
    held: Option<DecodedAsset>,
    skipped: usize,
    cancelled: bool,
}

impl View for Worker {
    type V = WorkerView;

    closed spec fn view(&self) -> WorkerView {
        WorkerView {
            total: self.candidates.len() as int,
            next: self.next as int,
            phase: self.phase,
            held: match self.held {
                Some(asset) => Some(asset@),
                None => None,
            },
            skipped: self.skipped as int,
            cancelled: self.cancelled,
        }
    }
}

impl Worker {
    /// The candidates that the worker was made for.
    pub closed spec fn spec_candidates(&self) -> Seq<CandidatePath> {
        self.candidates@
    }

    /// A worker for the candidates of one scan.
    pub fn new(candidates: Vec<CandidatePath>) -> (r: Self)
        ensures
            r@ == WorkerView::initial(candidates.len() as int),
            r.spec_candidates() == candidates@,
    {
        Self {
            candidates,
            next: 0,
            phase: Phase::Idle,
            held: None,
            skipped: 0,
            cancelled: false,
        }
    }

    /// The candidate with the given index.
    pub fn candidate(&self, index: usize) -> (r: Option<&CandidatePath>)
        ensures
            index < self@.total ==> r == Some(&self.spec_candidates()[index as int]),
            index >= self@.total ==> r is None,
    {
        if index < self.candidates.len() {
            Some(&self.candidates[index])
        } else {
            None
        }
    }

    pub fn phase(&self) -> (r: Phase)
        ensures
            r == self@.phase,
    {
        self.phase
    }

    /// How many candidates gave no asset.
    pub fn skipped(&self) -> (r: usize)
        ensures
            r == self@.skipped,
    {
        self.skipped
    }

    /// Whether the scan was called off.
    pub fn was_cancelled(&self) -> (r: bool)
        ensures
            r == self@.cancelled,
    {
        self.cancelled
    }

    fn stop(&mut self) -> (action: WorkerAction)
        ensures
            (final(self)@, action@) == old(self)@.stopped(),
            final(self).spec_candidates() == old(self).spec_candidates(),
    {
        self.phase = Phase::Done;
        self.held = None;
        WorkerAction::Stop
    }

    fn advance(&mut self) -> (action: WorkerAction)
        ensures
            (final(self)@, action@) == old(self)@.advance(),
            final(self).spec_candidates() == old(self).spec_candidates(),
    {
        self.held = None;
        if self.next < self.candidates.len() {
            self.phase = Phase::Loading;
            WorkerAction::Load(self.next)
        } else {
            self.phase = Phase::Completing;
            WorkerAction::SendComplete
        }
    }

    /// Takes what happened and says what to do next.
    pub fn step(&mut self, event: WorkerEvent) -> (action: WorkerAction)
        ensures
            (final(self)@, action@) == old(self)@.step(event@),
            final(self).spec_candidates() == old(self).spec_candidates(),
    {
        match (self.phase, event) {
            (Phase::Idle, WorkerEvent::Started) => self.advance(),
            (Phase::Loading, WorkerEvent::Loaded(Ok(asset))) => {
                self.held = Some(asset);
                self.phase = Phase::Polling;
                WorkerAction::PollCancel
            },
            (Phase::Loading, WorkerEvent::Loaded(Err(_))) => {
                if self.next < self.candidates.len() {
                    self.next += 1;
                    if self.skipped < usize::MAX {
                        self.skipped += 1;
                    }
                    self.advance()
                } else {
                    self.stop()
                }
            },
            (Phase::Polling, WorkerEvent::Polled(pending)) => {
                match self.held.take() {
                    Some(asset) => {
                        if pending {
                            self.cancelled = true;
                            self.stop()
                        } else {
                            self.phase = Phase::Sending;
                            WorkerAction::Send(asset)
                        }
                    },
                    None => self.stop(),
                }
            },
            (Phase::Sending, WorkerEvent::Sent) => {
                if self.next < self.candidates.len() {
                    self.next += 1;
                    self.advance()
                } else {
                    self.stop()
                }
            },
            _ => self.stop(),
        }
    }
}

} // verus!
