//! The retry/backoff state machine of the tunnel supervisor: what a status
//! reported at process exit resolves to, when a reconnect attempt is
//! scheduled, how notifications are deduplicated, and what stopping does.

use vstd::prelude::*;

use crate::status::{SshStatus, StatusView};

verus! {

/// The maximum number of reconnect tries to make while attempting to
/// reconnect.
pub const MAX_RETRIES: u32 = 5;

/// Number of bytes the external client must produce on stdout before the
/// handshake counts as successful.
pub const HANDSHAKE_BYTES: usize = 15;

/// The model of a [`SupervisorState`].
pub struct StateView {
    /// The last status reported to the caller.
    pub last_status: StatusView,
    /// Reconnect tries left.
    pub retries: u32,
    /// Whether the supervisor is currently trying to reconnect.
    pub reconnecting: bool,
    /// Whether a tunnel process has been handed to the supervisor.
    pub running: bool,
}

/// The record a supervisor keeps between events: the last status it
/// reported, the remaining retry budget, whether a reconnect cycle is
/// running, and whether it holds a tunnel process. The caller is expected
/// to keep it behind its own lock when several tasks drive it.
pub struct SupervisorState {
    last_status: SshStatus,
    retries: u32,
    reconnecting: bool,
    running: bool,
}

impl View for SupervisorState {
    type V = StateView;

    closed spec fn view(&self) -> StateView {
        StateView {
            last_status: self.last_status@,
            retries: self.retries,
            reconnecting: self.reconnecting,
            running: self.running,
        }
    }
}

/// How a status reported at process exit is resolved: a drop starts a
/// reconnect cycle with a full budget; an unreachable report continues the
/// cycle while budget remains, ends it with a final drop when the budget is
/// spent, and stays terminal when no cycle was running; every other status
/// passes through. The third component says whether a reconnect attempt is
/// scheduled.
pub open spec fn spec_resolve(s: StateView, report: StatusView) -> (StateView, StatusView, bool) {
    match report {
        StatusView::Dropped => (
            (StateView { reconnecting: true, retries: MAX_RETRIES, ..s }),
            StatusView::Reconnecting,
            true,
        ),
        StatusView::Unreachable => {
            let retries = if s.retries > 0 {
                (s.retries - 1) as u32
            } else {
                0u32
            };
            if retries > 0 {
                ((StateView { retries, ..s }), StatusView::Reconnecting, true)
            } else if s.reconnecting {
                ((StateView { retries, reconnecting: false, ..s }), StatusView::Dropped, false)
            } else {
                ((StateView { retries, ..s }), StatusView::Unreachable, false)
            }
        },
        _ => (s, report, false),
    }
}

/// Deduplication: a status is recorded and emitted only when it differs
/// from the last one reported.
pub open spec fn spec_note(s: StateView, status: StatusView) -> (StateView, bool) {
    if s.last_status == status {
        (s, false)
    } else {
        ((StateView { last_status: status, ..s }), true)
    }
}

/// One full step of the supervisor on a reported status: resolve, then
/// deduplicate. The second component holds the notification that went out,
/// if one did.
pub open spec fn spec_step(s: StateView, report: StatusView) -> (StateView, Seq<StatusView>) {
    let (s1, resolved, reconnect) = spec_resolve(s, report);
    let (s2, emitted) = spec_note(s1, resolved);
    (s2, if emitted {
        seq![resolved]
    } else {
        Seq::<StatusView>::empty()
    })
}

/// The supervisor run over a whole sequence of reported statuses: the final
/// state and the notifications that went out, in order.
pub open spec fn run_steps(s: StateView, reports: Seq<StatusView>) -> (StateView, Seq<StatusView>)
    decreases reports.len(),
{
    if reports.len() == 0 {
        (s, Seq::<StatusView>::empty())
    } else {
        let (s1, out1) = spec_step(s, reports[0]);
        let (s2, out2) = run_steps(s1, reports.drop_first());
        (s2, out1 + out2)
    }
}

/// How many notifications in `out` equal `target`.
pub open spec fn count_status(out: Seq<StatusView>, target: StatusView) -> nat
    decreases out.len(),
{
    if out.len() == 0 {
        0
    } else {
        (if out[0] == target {
            1nat
        } else {
            0nat
        }) + count_status(out.drop_first(), target)
    }
}

/// A sequence of `n` unreachable reports.
pub open spec fn unreachable_reports(n: nat) -> Seq<StatusView> {
    Seq::new(n, |i: int| StatusView::Unreachable)
}

/// What the result of a spawn attempt resolves to: on success the tunnel is
/// recorded and the status is `Reconnecting` while a reconnect cycle runs,
/// `Connecting` otherwise; on failure the spawn error passes through.
pub open spec fn spec_manage_spawn(s: StateView, spawn_ok: bool, err: StatusView) -> (
    StateView,
    StatusView,
) {
    if spawn_ok {
        (
            (StateView { running: true, ..s }),
            if s.reconnecting {
                StatusView::Reconnecting
            } else {
                StatusView::Connecting
            },
        )
    } else {
        (s, err)
    }
}

/// What stopping decides: a kill is issued exactly when a process is held;
/// nothing changes and nothing is reported.
pub open spec fn spec_stop(s: StateView) -> (StateView, bool) {
    (s, s.running)
}

impl SupervisorState {
    /// A fresh supervisor: ready, no process, no retries, not reconnecting.
    pub fn new() -> (state: Self)
        ensures
            state@ == (StateView {
                last_status: StatusView::Ready,
                retries: 0,
                reconnecting: false,
                running: false,
            }),
    {
        SupervisorState {
            last_status: SshStatus::Ready,
            retries: 0,
            reconnecting: false,
            running: false,
        }
    }

    /// The number of reconnect tries left.
    pub fn get_retries(&self) -> (retries: u32)
        ensures
            retries == self@.retries,
    {
        self.retries
    }

    /// Whether the supervisor is in the reconnecting state.
    pub fn reconnecting(&self) -> (reconnecting: bool)
        ensures
            reconnecting == self@.reconnecting,
    {
        self.reconnecting
    }

    /// Whether a tunnel process has been handed to the supervisor.
    pub fn running(&self) -> (running: bool)
        ensures
            running == self@.running,
    {
        self.running
    }

    /// Records that a tunnel process was handed to the supervisor.
    pub fn set_tunnel(&mut self)
        ensures
            final(self)@ == (StateView { running: true, ..old(self)@ }),
    {
        self.running = true;
    }

    /// Decrements the retry counter, clamping at zero, and returns the new
    /// count: the budget never goes below zero.
    pub fn decr_retries(&mut self) -> (retries: u32)
        ensures
            final(self)@ == (StateView {
                retries: if old(self)@.retries > 0 {
                    (old(self)@.retries - 1) as u32
                } else {
                    0u32
                },
                ..old(self)@
            }),
            retries == final(self)@.retries,
    {
        if self.retries > 0 {
            self.retries = self.retries - 1;
        }
        self.retries
    }

    /// Puts the supervisor into the reconnecting state with a full retry
    /// budget.
    pub fn start_reconnect(&mut self)
        ensures
            final(self)@ == (StateView {
                reconnecting: true,
                retries: MAX_RETRIES,
                ..old(self)@
            }),
    {
        self.reconnecting = true;
        self.retries = MAX_RETRIES;
    }

    /// Takes the supervisor out of the reconnecting state.
    pub fn stop_reconnect(&mut self)
        ensures
            final(self)@ == (StateView { reconnecting: false, ..old(self)@ }),
    {
        self.reconnecting = false;
    }

    /// Resolves a status reported when the watched process exited, as
    /// [`spec_resolve`] describes, and says whether a reconnect attempt
    /// must be scheduled.
    pub fn resolve_exit(&mut self, report: SshStatus) -> (resolution: (SshStatus, bool))
        ensures
            ({
                let (s1, resolved, reconnect) = spec_resolve(old(self)@, report@);
                &&& final(self)@ == s1
                &&& resolution.0@ == resolved
                &&& resolution.1 == reconnect
            }),
    {
        match report {
            SshStatus::Dropped => {
                self.start_reconnect();
                (SshStatus::Reconnecting, true)
            },
            SshStatus::Unreachable => {
                let retries = self.decr_retries();
                if retries > 0 {
                    (SshStatus::Reconnecting, true)
                } else if self.reconnecting {
                    self.stop_reconnect();
                    (SshStatus::Dropped, false)
                } else {
                    (SshStatus::Unreachable, false)
                }
            },
            other => (other, false),
        }
    }

    /// Records `status` as the last reported one and says whether a
    /// notification must go out, which is exactly when it differs from the
    /// previous one.
    pub fn note_status(&mut self, status: SshStatus) -> (emit: bool)
        ensures
            ({
                let (s1, emitted) = spec_note(old(self)@, status@);
                &&& final(self)@ == s1
                &&& emit == emitted
            }),
    {
        if self.last_status.same(&status) {
            false
        } else {
            self.last_status = status;
            true
        }
    }

    /// Settles the result of a spawn attempt, as [`spec_manage_spawn`]
    /// describes, and passes it through deduplication: returns the resolved
    /// status and whether it must be notified.
    pub fn manage_spawn(&mut self, spawn_ok: bool, err: SshStatus) -> (outcome: (SshStatus, bool))
        ensures
            ({
                let (s1, resolved) = spec_manage_spawn(old(self)@, spawn_ok, err@);
                let (s2, emitted) = spec_note(s1, resolved);
                &&& final(self)@ == s2
                &&& outcome.0@ == resolved
                &&& outcome.1 == emitted
            }),
    {
        let status = if spawn_ok {
            self.running = true;
            if self.reconnecting {
                SshStatus::Reconnecting
            } else {
                SshStatus::Connecting
            }
        } else {
            err
        };
        let report = status.clone();
        let emit = self.note_status(status);
        (report, emit)
    }

    /// Decides a stop request: a kill must be issued exactly when a process
    /// is held. Stopping changes nothing and reports nothing, so it is
    /// idempotent and a no-op without a process.
    pub fn stop(&self) -> (kill: bool)
        ensures
            (self@, kill) == spec_stop(self@),
    {
        self.running
    }
}

/// The status the handshake wait decides: `Connected` once enough bytes
/// arrived on stdout, `Ready` when the stream closed early (the watch loop
/// then classifies the real failure from stderr).
pub fn handshake_status(len: usize) -> (status: SshStatus)
    ensures
        status@ == (if len >= HANDSHAKE_BYTES {
            StatusView::Connected
        } else {
            StatusView::Ready
        }),
{
    if len >= HANDSHAKE_BYTES {
        SshStatus::Connected
    } else {
        SshStatus::Ready
    }
}

/// What the asynchronous start path reports once the handshake wait ends:
/// `Connected` is reported; `Ready` (a short read) is left for the watch
/// loop to classify; any other failure is reported as it is.
pub open spec fn spec_start_report(v: StatusView) -> Option<StatusView> {
    if v == StatusView::Connected {
        Some(StatusView::Connected)
    } else if v == StatusView::Ready {
        None
    } else {
        Some(v)
    }
}

/// The notification the start path owes for the status the handshake wait
/// ended with.
pub fn start_report(wait_status: SshStatus) -> (report: Option<SshStatus>)
    ensures
        (report is Some) == (spec_start_report(wait_status@) is Some),
        report matches Some(r) ==> spec_start_report(wait_status@) == Some(r@),
    {
    match wait_status {
        SshStatus::Connected => Some(SshStatus::Connected),
        SshStatus::Ready => None,
        other => Some(other),
    }
}

/// Counting a status distributes over concatenation of notification
/// sequences.
proof fn lemma_count_prepend(head: Seq<StatusView>, tail: Seq<StatusView>, target: StatusView)
    ensures
        count_status(head + tail, target) == count_status(head, target) + count_status(
            tail,
            target,
        ),
    decreases head.len(),
{
    if head.len() == 0 {
        assert(head + tail =~= tail);
    } else {
        assert((head + tail).drop_first() =~= head.drop_first() + tail);
        assert((head + tail)[0] == head[0]);
        lemma_count_prepend(head.drop_first(), tail, target);
    }
}

proof fn lemma_count_zero(out: Seq<StatusView>, target: StatusView)
    requires
        count_status(out, target) == 0,
    ensures
        forall|i: int| 0 <= i < out.len() ==> out[i] != target,
    decreases out.len(),
{
    if out.len() > 0 {
        lemma_count_zero(out.drop_first(), target);
        assert(forall|i: int| 1 <= i < out.len() ==> out[i] == out.drop_first()[i - 1]);
    }
}

proof fn lemma_count_single(v: StatusView, target: StatusView)
    ensures
        count_status(seq![v], target) == (if v == target {
            1nat
        } else {
            0nat
        }),
{
    assert(seq![v].drop_first() =~= Seq::<StatusView>::empty());
    assert(count_status(Seq::<StatusView>::empty(), target) == 0);
}

/// A state from which a run of unreachable reports can emit no further
/// `Reconnecting` notification: either the budget is spent and no cycle
/// runs, or `Reconnecting` was itself the last notification, so repeating
/// it is deduplicated away.
pub open spec fn reconnect_settled(s: StateView) -> bool {
    (s.retries == 0 && !s.reconnecting) || s.last_status == StatusView::Reconnecting
}

proof fn lemma_unreachable_run_no_reconnecting(s: StateView, n: nat)
    requires
        reconnect_settled(s),
    ensures
        count_status(run_steps(s, unreachable_reports(n)).1, StatusView::Reconnecting) == 0,
    decreases n,
{
    let reports = unreachable_reports(n);
    if n > 0 {
        let (s1, out1) = spec_step(s, reports[0]);
        assert(reports[0] == StatusView::Unreachable);
        assert(reconnect_settled(s1));
        assert(count_status(out1, StatusView::Reconnecting) == 0) by {
            let resolved = spec_resolve(s, StatusView::Unreachable).1;
            if out1.len() > 0 {
                lemma_count_single(resolved, StatusView::Reconnecting);
            }
        }
        assert(reports.drop_first() =~= unreachable_reports((n - 1) as nat));
        lemma_unreachable_run_no_reconnecting(s1, (n - 1) as nat);
        lemma_count_prepend(out1, run_steps(s1, reports.drop_first()).1, StatusView::Reconnecting);
    }
}

proof fn lemma_unreachable_run_drops(s: StateView, n: nat)
    requires
        s.last_status == StatusView::Reconnecting,
        s.reconnecting,
        1 <= s.retries <= n,
    ensures
        run_steps(s, unreachable_reports(n)).1.contains(StatusView::Dropped),
    decreases n,
{
    let reports = unreachable_reports(n);
    assert(reports[0] == StatusView::Unreachable);
    let (s1, out1) = spec_step(s, reports[0]);
    let (s2, out2) = run_steps(s1, reports.drop_first());
    if s.retries == 1 {
        assert(out1 =~= seq![StatusView::Dropped]);
        assert((out1 + out2)[0] == StatusView::Dropped);
    } else {
        assert(out1 =~= Seq::<StatusView>::empty());
        assert(reports.drop_first() =~= unreachable_reports((n - 1) as nat));
        lemma_unreachable_run_drops(s1, (n - 1) as nat);
        let w = choose|w: int| 0 <= w < out2.len() && out2[w] == StatusView::Dropped;
        assert((out1 + out2)[out1.len() + w] == StatusView::Dropped);
    }
}

/// Retry budget law: following a drop, a run of consecutive unreachable
/// reports emits at most `MAX_RETRIES` `Reconnecting` notifications, and
/// once at least `MAX_RETRIES` unreachable reports have followed, a final
/// `Dropped` notification is emitted after every `Reconnecting` one. The
/// retry budget itself is an unsigned count that `decr_retries` clamps at
/// zero, so it never goes negative.
pub proof fn lemma_retry_budget(s: StateView, n: nat)
    ensures
        ({
            let events = seq![StatusView::Dropped] + unreachable_reports(n);
            let (s_end, out) = run_steps(s, events);
            &&& count_status(out, StatusView::Reconnecting) <= MAX_RETRIES
            &&& n >= MAX_RETRIES ==> exists|k: int|
                0 <= k < out.len() && #[trigger] out[k] == StatusView::Dropped && (forall|j: int|
                    0 <= j < out.len() && #[trigger] out[j] == StatusView::Reconnecting ==> j < k)
        }),
{
    let events = seq![StatusView::Dropped] + unreachable_reports(n);
    assert(events[0] == StatusView::Dropped);
    assert(events.drop_first() =~= unreachable_reports(n));
    let (s1, out1) = spec_step(s, events[0]);
    let (s2, out2) = run_steps(s1, events.drop_first());
    let out = out1 + out2;
    assert(s1.last_status == StatusView::Reconnecting);
    assert(s1.reconnecting && s1.retries == MAX_RETRIES);
    assert(count_status(out1, StatusView::Reconnecting) <= 1) by {
        if out1.len() > 0 {
            lemma_count_single(StatusView::Reconnecting, StatusView::Reconnecting);
        }
    }
    lemma_unreachable_run_no_reconnecting(s1, n);
    lemma_count_prepend(out1, out2, StatusView::Reconnecting);
    if n >= MAX_RETRIES {
        lemma_unreachable_run_drops(s1, n);
        lemma_count_zero(out2, StatusView::Reconnecting);
        let w = choose|w: int| 0 <= w < out2.len() && out2[w] == StatusView::Dropped;
        let k = out1.len() + w;
        assert(out[k] == StatusView::Dropped);
        assert forall|j: int|
            0 <= j < out.len() && #[trigger] out[j] == StatusView::Reconnecting implies j < k by {
            if j >= out1.len() {
                assert(out[j] == out2[j - out1.len()]);
            }
        }
    }
}

/// Deduplication law: of two consecutive identical statuses only the first
/// can emit a notification; recording the same status again emits nothing
/// and leaves the state unchanged.
pub proof fn lemma_dedup(s: StateView, status: StatusView)
    ensures
        ({
            let (s1, first) = spec_note(s, status);
            let (s2, second) = spec_note(s1, status);
            &&& second == false
            &&& s2 == s1
        }),
{
}

/// Stop is idempotent: it never changes the supervisor state, never emits a
/// notification, and a second stop decides exactly what the first did.
pub proof fn lemma_stop_idempotent(s: StateView)
    ensures
        spec_stop(s).0 == s,
        spec_stop(spec_stop(s).0) == spec_stop(s),
{
}

} // verus!
