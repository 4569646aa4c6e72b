//! Watch mode: debouncing of filesystem events, and the orchestrator that
//! decides when to revalidate and when to stop.
//!
//! The outside watcher backend delivers raw events and timestamps; both
//! state machines here are driven with plain values. The debouncer coalesces
//! every event of a burst into one batch, handed out once its window has
//! passed; the orchestrator turns a batch into one action: revalidate, stop
//! because the watched CSS input disappeared, or do nothing.

use vstd::prelude::*;
use crate::text::str_eq;

verus! {

/// A filesystem notification, reduced to what the orchestrator reads.
#[derive(Debug, Clone)]
pub enum WatchEvent {
    /// The file at the path changed (content or shape of the tree).
    Changed(String),
    /// The file at the path was removed or renamed away.
    Removed(String),
    /// Anything else: metadata-only noise, ignored.
    Other,
}

/// The mathematical shape of a notification.
pub enum WatchEventModel {
    Changed(Seq<char>),
    Removed(Seq<char>),
    Other,
}

impl View for WatchEvent {
    type V = WatchEventModel;

    open spec fn view(&self) -> WatchEventModel {
        match self {
            WatchEvent::Changed(p) => WatchEventModel::Changed(p@),
            WatchEvent::Removed(p) => WatchEventModel::Removed(p@),
            WatchEvent::Other => WatchEventModel::Other,
        }
    }
}

/// Addition capped at the largest timestamp.
pub open spec fn sat_add(a: int, b: int) -> int {
    if a + b > u64::MAX {
        u64::MAX as int
    } else {
        a + b
    }
}

/// The mathematical shape of the debouncer.
#[verifier::ext_equal]
pub struct DebouncerModel {
    /// The debounce window, in milliseconds.
    pub window: int,
    /// The events of the burst being gathered.
    pub pending: Seq<WatchEventModel>,
    /// When the gathered burst is due; meaningful while `pending` is
    /// non-empty.
    pub deadline: int,
}

/// Offering an event starts a burst (first event fixes the deadline, one
/// window later) or joins the running one.
pub open spec fn spec_offer(d: DebouncerModel, now: int, e: WatchEventModel) -> DebouncerModel {
    DebouncerModel {
        window: d.window,
        pending: d.pending.push(e),
        deadline: if d.pending.len() == 0 {
            sat_add(now, d.window)
        } else {
            d.deadline
        },
    }
}

/// A poll hands the burst out only once the deadline has passed.
pub open spec fn spec_poll_fires(d: DebouncerModel, now: int) -> bool {
    d.pending.len() > 0 && now >= d.deadline
}

/// The debouncer after a poll: a burst handed out leaves nothing behind.
pub open spec fn spec_poll_state(d: DebouncerModel, now: int) -> DebouncerModel {
    if spec_poll_fires(d, now) {
        DebouncerModel { pending: Seq::empty(), ..d }
    } else {
        d
    }
}

/// Coalesces bursts of filesystem events into single batches.
pub struct Debouncer {
    window: u64,
    pending: Vec<WatchEvent>,
    deadline: u64,
}

impl View for Debouncer {
    type V = DebouncerModel;

    closed spec fn view(&self) -> DebouncerModel {
        DebouncerModel {
            window: self.window as int,
            pending: self.pending@.map_values(|e: WatchEvent| e@),
            deadline: self.deadline as int,
        }
    }
}

impl Debouncer {
    /// A fresh debouncer with the given window, in milliseconds.
    pub fn new(window_ms: u64) -> (r: Debouncer)
        ensures
            r@.window == window_ms,
            r@.pending == Seq::<WatchEventModel>::empty(),
    {
        let r = Debouncer { window: window_ms, pending: Vec::new(), deadline: 0 };
        proof {
            assert(r@.pending =~= Seq::<WatchEventModel>::empty());
        }
        r
    }

    /// Feeds one raw event, stamped `now_ms`, into the running burst.
    pub fn offer(&mut self, now_ms: u64, event: WatchEvent)
        ensures
            final(self)@ == spec_offer(old(self)@, now_ms as int, event@),
    {
        if self.pending.len() == 0 {
            if now_ms > u64::MAX - self.window {
                self.deadline = u64::MAX;
            } else {
                self.deadline = now_ms + self.window;
            }
        }
        self.pending.push(event);
        proof {
            assert(self@ =~= spec_offer(old(self)@, now_ms as int, event@));
        }
    }

    /// Asks, at `now_ms`, for the gathered batch: it is handed out, whole,
    /// exactly when a burst is pending and its deadline has passed; nothing
    /// stays behind.
    pub fn poll(&mut self, now_ms: u64) -> (r: Option<Vec<WatchEvent>>)
        ensures
            spec_poll_fires(old(self)@, now_ms as int) ==> (r matches Some(batch)
                && batch@.map_values(|e: WatchEvent| e@) == old(self)@.pending),
            !spec_poll_fires(old(self)@, now_ms as int) ==> r is None,
            final(self)@ == spec_poll_state(old(self)@, now_ms as int),
    {
        if self.pending.len() > 0 && now_ms >= self.deadline {
            let mut batch: Vec<WatchEvent> = Vec::new();
            std::mem::swap(&mut batch, &mut self.pending);
            proof {
                assert(self@.pending =~= Seq::<WatchEventModel>::empty());
                assert(self@ =~= spec_poll_state(old(self)@, now_ms as int));
            }
            Some(batch)
        } else {
            None
        }
    }
}

/// The debouncer after a whole run of offers.
pub open spec fn spec_offer_all(
    d: DebouncerModel,
    times: Seq<int>,
    events: Seq<WatchEventModel>,
) -> DebouncerModel
    decreases events.len(),
{
    if events.len() == 0 || times.len() != events.len() {
        d
    } else {
        spec_offer_all(
            spec_offer(d, times[0], events[0]),
            times.drop_first(),
            events.drop_first(),
        )
    }
}

/// Once a burst has begun, further offers only join it: the deadline stands.
proof fn lemma_offer_all_joins(d: DebouncerModel, times: Seq<int>, events: Seq<WatchEventModel>)
    requires
        d.pending.len() > 0,
        times.len() == events.len(),
    ensures
        spec_offer_all(d, times, events).pending == d.pending + events,
        spec_offer_all(d, times, events).deadline == d.deadline,
        spec_offer_all(d, times, events).window == d.window,
    decreases events.len(),
{
    if events.len() == 0 {
        assert(d.pending + events =~= d.pending);
    } else {
        let d1 = spec_offer(d, times[0], events[0]);
        lemma_offer_all_joins(d1, times.drop_first(), events.drop_first());
        assert(d1.pending + events.drop_first() =~= d.pending + events);
    }
}

/// The debounce law: any number of filesystem events offered while the
/// debouncer is idle become one single batch. Every poll strictly before
/// the deadline (one window after the first event) hands out nothing; the
/// poll at or after it hands out every offered event at once; and after
/// that the debouncer is empty, so no further poll fires until a new event
/// arrives. N events in one window mean one revalidation pass, not N.
pub proof fn lemma_debounce_coalesces(
    d: DebouncerModel,
    times: Seq<int>,
    events: Seq<WatchEventModel>,
    t_poll: int,
)
    requires
        d.pending.len() == 0,
        times.len() == events.len(),
        events.len() > 0,
        t_poll >= sat_add(times[0], d.window),
    ensures
        ({
            let after = spec_offer_all(d, times, events);
            &&& after.pending == events
            &&& after.deadline == sat_add(times[0], d.window)
            &&& forall|t: int| t < sat_add(times[0], d.window) ==> !spec_poll_fires(after, t)
            &&& spec_poll_fires(after, t_poll)
            &&& forall|t: int| !spec_poll_fires(spec_poll_state(after, t_poll), t)
        }),
{
    let d1 = spec_offer(d, times[0], events[0]);
    lemma_offer_all_joins(d1, times.drop_first(), events.drop_first());
    let after = spec_offer_all(d, times, events);
    assert(after == spec_offer_all(d1, times.drop_first(), events.drop_first()));
    assert(after.pending =~= events);
}

/// What the orchestrator answers to one debounced batch.
#[derive(Debug, Clone, Copy, PartialEq, Eq, Structural)]
pub enum WatchAction {
    /// Rerun the whole validation pass: re-expand the glob, reload the
    /// accepted set, rescan.
    Revalidate,
    /// The watched CSS input itself disappeared: stop watching and leave
    /// with the distinct input-removed status.
    ExitInputRemoved,
    /// Nothing of substance happened; keep watching.
    Ignore,
}

/// Where the watch loop stands.
#[derive(Debug, Clone, Copy, PartialEq, Eq, Structural)]
pub enum WatchState {
    /// Before the initial validation pass.
    Idle,
    /// Watching for changes.
    Watching,
    /// The watched CSS input disappeared; the loop is over.
    Stopped,
}

/// The batch asks for the CSS input to be forgotten: it holds a removal of
/// the watched CSS path. A remote CSS input is never watched, so it is
/// never removed.
pub open spec fn batch_removes_css(css: Option<Seq<char>>, batch: Seq<WatchEventModel>) -> bool {
    match css {
        Some(p) => exists|i: int|
            0 <= i < batch.len() && batch[i] == WatchEventModel::Removed(p),
        None => false,
    }
}

/// The batch holds at least one real change.
pub open spec fn batch_has_change(batch: Seq<WatchEventModel>) -> bool {
    exists|i: int| 0 <= i < batch.len() && !(batch[i] is Other)
}

/// Decides, batch by batch, whether to revalidate, keep waiting, or stop
/// because the watched CSS input disappeared.
pub struct Orchestrator {
    css_path: Option<String>,
    state: WatchState,
}

impl Orchestrator {
    /// The watched CSS path; nothing when the CSS input is remote.
    pub closed spec fn css(&self) -> Option<Seq<char>> {
        match self.css_path {
            Some(ref p) => Some(p@),
            None => None,
        }
    }

    /// Where the loop stands.
    pub closed spec fn state(&self) -> WatchState {
        self.state
    }

    /// A fresh orchestrator; `css_path` is the local CSS file to guard, or
    /// nothing when the CSS input is a URL (those are never watched).
    pub fn new(css_path: Option<String>) -> (r: Orchestrator)
        ensures
            r.state() == WatchState::Idle,
            r.css() == match css_path {
                Some(p) => Some(p@),
                None => None::<Seq<char>>,
            },
    {
        Orchestrator { css_path, state: WatchState::Idle }
    }

    /// Enters watch mode. The validation pass always runs once first,
    /// whether or not watching goes on afterward.
    pub fn start(&mut self) -> (a: WatchAction)
        requires
            old(self).state() == WatchState::Idle,
        ensures
            final(self).state() == WatchState::Watching,
            final(self).css() == old(self).css(),
            a == WatchAction::Revalidate,
    {
        self.state = WatchState::Watching;
        WatchAction::Revalidate
    }

    /// Answers one debounced batch: removal of the watched CSS file stops
    /// the loop; any other change asks for one fresh pass; a batch of noise
    /// asks for nothing.
    pub fn on_batch(&mut self, batch: &Vec<WatchEvent>) -> (a: WatchAction)
        requires
            old(self).state() == WatchState::Watching,
        ensures
            final(self).css() == old(self).css(),
            ({
                let bv = batch@.map_values(|e: WatchEvent| e@);
                if batch_removes_css(old(self).css(), bv) {
                    a == WatchAction::ExitInputRemoved && final(self).state()
                        == WatchState::Stopped
                } else if batch_has_change(bv) {
                    a == WatchAction::Revalidate && final(self).state() == WatchState::Watching
                } else {
                    a == WatchAction::Ignore && final(self).state() == WatchState::Watching
                }
            }),
    {
        let ghost bv = batch@.map_values(|e: WatchEvent| e@);
        let n = batch.len();
        let mut has_change = false;
        let mut i: usize = 0;
        while i < n
            invariant
                n == batch@.len(),
                bv == batch@.map_values(|e: WatchEvent| e@),
                0 <= i <= n,
                self == old(self),
                self.state() == WatchState::Watching,
                forall|j: int|
                    0 <= j < i ==> match self.css() {
                        Some(p) => #[trigger] bv[j] != WatchEventModel::Removed(p),
                        None => true,
                    },
                has_change == exists|j: int| 0 <= j < i && !(bv[j] is Other),
            decreases n - i,
        {
            match &batch[i] {
                WatchEvent::Removed(p) => {
                    let removed_css = match &self.css_path {
                        Some(cp) => str_eq(p.as_str(), cp.as_str()),
                        None => false,
                    };
                    if removed_css {
                        proof {
                            assert(bv[i as int] == WatchEventModel::Removed(p@));
                        }
                        self.state = WatchState::Stopped;
                        return WatchAction::ExitInputRemoved;
                    }
                    has_change = true;
                    proof {
                        assert(!(bv[i as int] is Other));
                    }
                }
                WatchEvent::Changed(_) => {
                    has_change = true;
                    proof {
                        assert(!(bv[i as int] is Other));
                    }
                }
                WatchEvent::Other => {
                    proof {
                        assert(bv[i as int] is Other);
                    }
                }
            }
            i += 1;
        }
        proof {
            assert(!batch_removes_css(self.css(), bv));
        }
        if has_change {
            WatchAction::Revalidate
        } else {
            WatchAction::Ignore
        }
    }
}

} // verus!
