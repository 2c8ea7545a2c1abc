//! Clean shutdown: which signals end the process, and what is saved on the way out.
//!
//! A signal ends the session, flushes the placeholders of running streams, and finalizes the turns
//! that were active. A panic does none of that: most panics are recovered within their task while
//! the process goes on, and flushing everything would spoil unrelated sessions.

use vstd::prelude::*;

verus! {

/// How long the session-end hook may take before the shutdown goes on, in seconds.
pub const SESSION_END_TIMEOUT_SECS: u64 = 5;

// ── Installation ─────────────────────────────────────────────────

/// What the process has installed so far.
#[derive(Debug, Clone, Copy, PartialEq, Eq, Structural)]
pub struct InstalledHooks {
    pub panic_hook: bool,
    pub signal_handlers: bool,
}

/// The kinds of platforms, by their signals.
#[derive(Debug, Clone, Copy, PartialEq, Eq, Structural)]
pub enum Platform {
    Unix,
    Windows,
    Other,
}

/// The signals that end the process.
#[derive(Debug, Clone, Copy, PartialEq, Eq, Structural)]
pub enum ShutdownSignal {
    Sigterm,
    Sigint,
    CtrlC,
    CtrlBreak,
}

/// The signals that are handled, in the order of their installation. On Unix SIGTERM always is, and
/// SIGINT is where it is asked for; on Windows both of its signals always are.
pub open spec fn handled_signals(platform: Platform, handle_sigint: bool) -> Seq<ShutdownSignal> {
    match platform {
        Platform::Unix => if handle_sigint {
            seq![ShutdownSignal::Sigterm, ShutdownSignal::Sigint]
        } else {
            seq![ShutdownSignal::Sigterm]
        },
        Platform::Windows => seq![ShutdownSignal::CtrlC, ShutdownSignal::CtrlBreak],
        Platform::Other => Seq::empty(),
    }
}

/// Which signals an installation handles, or `None` where handlers were installed before.
pub open spec fn installation(
    hooks: InstalledHooks,
    platform: Platform,
    handle_sigint: bool,
) -> Option<Seq<ShutdownSignal>> {
    if hooks.signal_handlers {
        None
    } else {
        Some(handled_signals(platform, handle_sigint))
    }
}

/// What is installed after signal handlers were asked for.
pub open spec fn with_signal_handlers(hooks: InstalledHooks) -> InstalledHooks {
    InstalledHooks { signal_handlers: true, ..hooks }
}

/// The signals of a list that may be missing.
pub open spec fn signals_of(signals: Option<Vec<ShutdownSignal>>) -> Option<Seq<ShutdownSignal>> {
    match signals {
        Some(v) => Some(v@),
        None => None,
    }
}

impl InstalledHooks {
    /// Nothing is installed yet.
    pub fn new() -> (r: Self)
        ensures
            r == (InstalledHooks { panic_hook: false, signal_handlers: false }),
    {
        InstalledHooks { panic_hook: false, signal_handlers: false }
    }
}

/// Notes that the panic hook is installed, which does nothing: cleaning up after a panic is left to
/// the task that panicked.
pub fn install_panic_hook(hooks: &mut InstalledHooks)
    ensures
        *final(hooks) == (InstalledHooks { panic_hook: true, ..*old(hooks) }),
{
    hooks.panic_hook = true;
}

/// Decides which signals to handle. `None` where handlers were installed before.
///
/// In desktop mode SIGINT is left alone, so that Ctrl+C reaches the processes that started this
/// one. The desktop ends on a path of its own.
pub fn install_signal_handlers(
    hooks: &mut InstalledHooks,
    platform: Platform,
    desktop: bool,
) -> (r: Option<Vec<ShutdownSignal>>)
    ensures
        *final(hooks) == with_signal_handlers(*old(hooks)),
        signals_of(r) == installation(*old(hooks), platform, !desktop),
{
    install_signal_handlers_inner(hooks, platform, desktop, false)
}

/// Decides which signals to handle, with SIGINT even in desktop mode: for what runs in the
/// foreground and is ended by Ctrl+C.
pub fn install_signal_handlers_with_sigint(
    hooks: &mut InstalledHooks,
    platform: Platform,
    desktop: bool,
) -> (r: Option<Vec<ShutdownSignal>>)
    ensures
        *final(hooks) == with_signal_handlers(*old(hooks)),
        signals_of(r) == installation(*old(hooks), platform, true),
{
    install_signal_handlers_inner(hooks, platform, desktop, true)
}

fn install_signal_handlers_inner(
    hooks: &mut InstalledHooks,
    platform: Platform,
    desktop: bool,
    force_sigint: bool,
) -> (r: Option<Vec<ShutdownSignal>>)
    ensures
        *final(hooks) == with_signal_handlers(*old(hooks)),
        signals_of(r) == installation(*old(hooks), platform, force_sigint || !desktop),
{
    if hooks.signal_handlers {
        return None;
    }
    hooks.signal_handlers = true;
    let handle_sigint = force_sigint || !desktop;
    let mut signals: Vec<ShutdownSignal> = Vec::new();
    match platform {
        Platform::Unix => {
            signals.push(ShutdownSignal::Sigterm);
            if handle_sigint {
                signals.push(ShutdownSignal::Sigint);
            }
        },
        Platform::Windows => {
            signals.push(ShutdownSignal::CtrlC);
            signals.push(ShutdownSignal::CtrlBreak);
        },
        Platform::Other => {},
    }
    assert(signals@ =~= handled_signals(platform, handle_sigint));
    Some(signals)
}

// ── Watching for signals ─────────────────────────────────────────

/// How far the watch for signals is.
#[derive(Debug, Clone, Copy, PartialEq, Eq, Structural)]
pub enum WatchState {
    /// The handlers before this one are installed.
    Installing(usize),
    /// All handlers are installed.
    Waiting,
    /// A signal came, the session ends.
    EndingSession,
    /// The session has ended, the cleanup runs.
    ShuttingDown,
    /// The cleanup is done.
    Done,
    /// A handler could not be installed: no signal is watched for.
    GivenUp,
}

/// What happens to a watch.
#[derive(Debug, Clone, Copy, PartialEq, Eq, Structural)]
pub enum WatchEvent {
    /// The handler was installed.
    Installed,
    /// The handler could not be installed.
    InstallFailed,
    /// One of the signals came.
    Received(ShutdownSignal),
    /// The session-end hook has run, or its time was up.
    SessionEnded,
    /// The cleanup has run.
    CleanedUp,
}

/// What a watch does.
#[derive(Debug, Clone, Copy, PartialEq, Eq, Structural)]
pub enum WatchAction {
    /// Install the handler of a signal.
    Install(ShutdownSignal),
    /// Wait for the first of the signals.
    Wait,
    /// Run the session-end hook, for so many seconds at most.
    EndSession(u64),
    /// Run the cleanup.
    CleanUp,
    /// End the process, with success.
    Exit,
    /// Stop watching.
    Stop,
}

/// How a watch for `signals` begins. There is nothing to watch for without a signal.
pub open spec fn first_state(signals: Seq<ShutdownSignal>) -> WatchState {
    if signals.len() == 0 {
        WatchState::GivenUp
    } else {
        WatchState::Installing(0)
    }
}

/// How a watch for `signals` goes on. An event that is not awaited changes nothing.
pub open spec fn state_after(
    signals: Seq<ShutdownSignal>,
    state: WatchState,
    event: WatchEvent,
) -> WatchState {
    match (state, event) {
        (WatchState::Installing(i), WatchEvent::Installed) => if i + 1 < signals.len() {
            WatchState::Installing((i + 1) as usize)
        } else {
            WatchState::Waiting
        },
        (WatchState::Installing(_), WatchEvent::InstallFailed) => WatchState::GivenUp,
        (WatchState::Waiting, WatchEvent::Received(signal)) => if signals.contains(signal) {
            WatchState::EndingSession
        } else {
            WatchState::Waiting
        },
        (WatchState::EndingSession, WatchEvent::SessionEnded) => WatchState::ShuttingDown,
        (WatchState::ShuttingDown, WatchEvent::CleanedUp) => WatchState::Done,
        _ => state,
    }
}

/// Whether a watch for `signals` can be in that state.
pub open spec fn state_valid(signals: Seq<ShutdownSignal>, state: WatchState) -> bool {
    state matches WatchState::Installing(i) ==> i < signals.len()
}

/// What a watch for `signals` does in a state.
pub open spec fn action_in(signals: Seq<ShutdownSignal>, state: WatchState) -> WatchAction {
    match state {
        WatchState::Installing(i) => WatchAction::Install(signals[i as int]),
        WatchState::Waiting => WatchAction::Wait,
        WatchState::EndingSession => WatchAction::EndSession(SESSION_END_TIMEOUT_SECS),
        WatchState::ShuttingDown => WatchAction::CleanUp,
        WatchState::Done => WatchAction::Exit,
        WatchState::GivenUp => WatchAction::Stop,
    }
}

fn is_among(signals: &Vec<ShutdownSignal>, signal: ShutdownSignal) -> (r: bool)
    ensures
        r == signals@.contains(signal),
{
    let mut i: usize = 0;
    while i < signals.len()
        invariant
            i <= signals.len(),
            forall|j: int| 0 <= j < i ==> #[trigger] signals@[j] != signal,
        decreases signals.len() - i,
    {
        if signals[i] == signal {
            return true;
        }
        i += 1;
    }
    false
}

/// Begins to watch for `signals`.
pub fn watch_begins(signals: &Vec<ShutdownSignal>) -> (r: WatchState)
    ensures
        r == first_state(signals@),
        state_valid(signals@, r),
{
    if signals.len() == 0 {
        WatchState::GivenUp
    } else {
        WatchState::Installing(0)
    }
}

/// Goes on with a watch for `signals` after an event.
pub fn watch_goes_on(
    signals: &Vec<ShutdownSignal>,
    state: WatchState,
    event: WatchEvent,
) -> (r: WatchState)
    requires
        state_valid(signals@, state),
    ensures
        r == state_after(signals@, state, event),
        state_valid(signals@, r),
{
    match (state, event) {
        (WatchState::Installing(i), WatchEvent::Installed) => if i < signals.len() - 1 {
            WatchState::Installing(i + 1)
        } else {
            WatchState::Waiting
        },
        (WatchState::Installing(_), WatchEvent::InstallFailed) => WatchState::GivenUp,
        (WatchState::Waiting, WatchEvent::Received(signal)) => if is_among(signals, signal) {
            WatchState::EndingSession
        } else {
            WatchState::Waiting
        },
        (WatchState::EndingSession, WatchEvent::SessionEnded) => WatchState::ShuttingDown,
        (WatchState::ShuttingDown, WatchEvent::CleanedUp) => WatchState::Done,
        _ => state,
    }
}

/// What a watch for `signals` does in a state.
pub fn watch_action(signals: &Vec<ShutdownSignal>, state: WatchState) -> (r: WatchAction)
    requires
        state_valid(signals@, state),
    ensures
        r == action_in(signals@, state),
{
    match state {
        WatchState::Installing(i) => WatchAction::Install(signals[i]),
        WatchState::Waiting => WatchAction::Wait,
        WatchState::EndingSession => WatchAction::EndSession(SESSION_END_TIMEOUT_SECS),
        WatchState::ShuttingDown => WatchAction::CleanUp,
        WatchState::Done => WatchAction::Exit,
        WatchState::GivenUp => WatchAction::Stop,
    }
}

// ── Cleanup ──────────────────────────────────────────────────────

/// The parts of the cleanup.
#[derive(Debug, Clone, Copy, PartialEq, Eq, Structural)]
pub enum CleanupTask {
    /// Leave the mark of a clean shutdown.
    WriteCleanMarker,
    /// Store what the running streams still hold in memory.
    FlushPersisters,
    /// Finalize the active turns.
    FinalizeActiveTurns,
}

/// The cleanup, in its order. What is in memory has to be stored before the turns are finalized:
/// they are rebuilt from what is stored.
pub open spec fn cleanup_tasks() -> Seq<CleanupTask> {
    seq![
        CleanupTask::WriteCleanMarker,
        CleanupTask::FlushPersisters,
        CleanupTask::FinalizeActiveTurns,
    ]
}

/// The cleanup without the exit, for a process that exits on its own.
pub fn clean_shutdown_no_exit() -> (r: Vec<CleanupTask>)
    ensures
        r@ == cleanup_tasks(),
{
    let mut tasks: Vec<CleanupTask> = Vec::new();
    tasks.push(CleanupTask::WriteCleanMarker);
    tasks.push(CleanupTask::FlushPersisters);
    tasks.push(CleanupTask::FinalizeActiveTurns);
    assert(tasks@ =~= cleanup_tasks());
    tasks
}

/// A turn that is active at the shutdown. `S` tells where it came from.
#[derive(Debug)]
pub struct TurnSnapshot<S> {
    pub session_id: String,
    pub turn_id: String,
    pub source: S,
}

/// What is known of a turn that was cut off. `R` is what goes with it.
#[derive(Debug)]
pub struct PartialMeta<R> {
    pub turn_id: Option<String>,
    pub rest: R,
}

/// Why a turn ends.
#[derive(Debug, Clone, Copy, PartialEq, Eq, Structural)]
pub enum TerminationReason {
    Shutdown,
}

/// The request to finalize a turn.
#[derive(Debug)]
pub struct FinalizeRequest<S, R> {
    pub session_id: String,
    pub reason: TerminationReason,
    pub partial: PartialMeta<R>,
    pub source: S,
}

/// One step of finalizing the active turns; each names its turn by the position in the list.
#[derive(Debug, Clone, Copy, PartialEq, Eq, Structural)]
pub enum FinalizeStep {
    /// Find out with which kind of provider the session of the turn talks.
    ResolveProvider(usize),
    /// Collect what is stored of the turn, in the shape of that kind of provider.
    CollectPartial(usize),
    /// Finalize the turn with what was collected.
    Finalize(usize),
}

/// The step at position `k`: the turns one after the other, each by three steps.
pub open spec fn finalize_step(k: int) -> FinalizeStep {
    let turn = (k / 3) as usize;
    if k % 3 == 0 {
        FinalizeStep::ResolveProvider(turn)
    } else if k % 3 == 1 {
        FinalizeStep::CollectPartial(turn)
    } else {
        FinalizeStep::Finalize(turn)
    }
}

/// The steps that finalize so many active turns. There are none without the database.
pub open spec fn finalize_steps(db_open: bool, turns: nat) -> Seq<FinalizeStep> {
    if db_open {
        Seq::new(3 * turns, |k: int| finalize_step(k))
    } else {
        Seq::empty()
    }
}

/// The steps that finalize the active turns at the shutdown: none without the database, else three
/// for each turn.
pub fn finalize_active_turns_for_shutdown<S>(db_open: bool, active: &Vec<TurnSnapshot<S>>) -> (r:
    Vec<FinalizeStep>)
    ensures
        r@ == finalize_steps(db_open, active@.len()),
{
    let mut steps: Vec<FinalizeStep> = Vec::new();
    if !db_open {
        return steps;
    }
    let mut i: usize = 0;
    while i < active.len()
        invariant
            i <= active.len(),
            steps@ == finalize_steps(true, i as nat),
        decreases active.len() - i,
    {
        steps.push(FinalizeStep::ResolveProvider(i));
        steps.push(FinalizeStep::CollectPartial(i));
        steps.push(FinalizeStep::Finalize(i));
        i += 1;
        assert(steps@ =~= finalize_steps(true, i as nat));
    }
    steps
}

/// The request to finalize a turn at the shutdown with what was collected of it. It names the turn,
/// whatever was collected says; the rest stays as collected.
pub fn shutdown_request<S, R>(snapshot: TurnSnapshot<S>, partial: PartialMeta<R>) -> (r:
    FinalizeRequest<S, R>)
    ensures
        r == (FinalizeRequest {
            session_id: snapshot.session_id,
            reason: TerminationReason::Shutdown,
            partial: PartialMeta { turn_id: Some(snapshot.turn_id), rest: partial.rest },
            source: snapshot.source,
        }),
{
    FinalizeRequest {
        session_id: snapshot.session_id,
        reason: TerminationReason::Shutdown,
        partial: PartialMeta { turn_id: Some(snapshot.turn_id), rest: partial.rest },
        source: snapshot.source,
    }
}

// ── Laws ─────────────────────────────────────────────────────────

/// On Unix SIGTERM is handled in every mode; SIGINT is left alone in desktop mode unless it is
/// forced.
pub proof fn desktop_leaves_sigint_alone(desktop: bool, force_sigint: bool)
    ensures
        ({
            let signals = handled_signals(Platform::Unix, force_sigint || !desktop);
            &&& signals.contains(ShutdownSignal::Sigterm)
            &&& signals.contains(ShutdownSignal::Sigint) <==> force_sigint || !desktop
        }),
{
    let signals = handled_signals(Platform::Unix, force_sigint || !desktop);
    assert(signals[0] == ShutdownSignal::Sigterm);
    if force_sigint || !desktop {
        assert(signals[1] == ShutdownSignal::Sigint);
    }
}

/// What is installed after signal handlers were asked for so many times.
pub open spec fn hooks_after(hooks: InstalledHooks, calls: nat) -> InstalledHooks
    decreases calls,
{
    if calls == 0 {
        hooks
    } else {
        with_signal_handlers(hooks_after(hooks, (calls - 1) as nat))
    }
}

/// However often signal handlers are asked for, the first call alone installs some, and its wish
/// for SIGINT decides: a later call installs nothing and changes nothing, whatever it wishes.
/// `forced` holds for each call whether it forces SIGINT.
pub proof fn first_installation_decides(
    hooks: InstalledHooks,
    platform: Platform,
    desktop: bool,
    forced: Seq<bool>,
    call: int,
)
    requires
        !hooks.signal_handlers,
        0 <= call < forced.len(),
    ensures
        installation(hooks_after(hooks, call as nat), platform, forced[call] || !desktop) == (
        if call == 0 {
            Some(handled_signals(platform, forced[0] || !desktop))
        } else {
            None
        }),
        call > 0 ==> hooks_after(hooks, (call + 1) as nat) == hooks_after(hooks, call as nat),
    decreases call,
{
    if call > 0 {
        first_installation_decides(hooks, platform, desktop, forced, call - 1);
    }
}

/// The process ends only after its cleanup, the cleanup runs only after the session has ended, and
/// the session ends only for a signal that is watched for.
pub proof fn exit_comes_after_the_cleanup(
    signals: Seq<ShutdownSignal>,
    state: WatchState,
    event: WatchEvent,
)
    requires
        state_valid(signals, state),
    ensures
        ({
            let after = state_after(signals, state, event);
            &&& after != state && action_in(signals, after) == WatchAction::Exit ==> action_in(
                signals,
                state,
            ) == WatchAction::CleanUp && event == WatchEvent::CleanedUp
            &&& after != state && action_in(signals, after) == WatchAction::CleanUp ==> action_in(
                signals,
                state,
            ) == WatchAction::EndSession(SESSION_END_TIMEOUT_SECS) && event
                == WatchEvent::SessionEnded
            &&& after != state && action_in(signals, after) == WatchAction::EndSession(
                SESSION_END_TIMEOUT_SECS,
            ) ==> action_in(signals, state) == WatchAction::Wait && (event matches
                WatchEvent::Received(signal) && signals.contains(signal))
        }),
{
}

/// No signal is waited for before every handler is installed, and one that cannot be installed ends
/// the watch for good.
pub proof fn waiting_needs_every_handler(
    signals: Seq<ShutdownSignal>,
    state: WatchState,
    event: WatchEvent,
)
    requires
        state_valid(signals, state),
    ensures
        ({
            let after = state_after(signals, state, event);
            &&& after != state && after == WatchState::Waiting ==> state
                == WatchState::Installing((signals.len() - 1) as usize) && event
                == WatchEvent::Installed
            &&& state is Installing && event == WatchEvent::InstallFailed ==> after
                == WatchState::GivenUp
            &&& state == WatchState::GivenUp ==> after == WatchState::GivenUp
        }),
{
}

/// What the streams hold is stored before any turn is finalized.
pub proof fn flush_comes_before_finalize(i: int, j: int)
    requires
        0 <= i < cleanup_tasks().len(),
        0 <= j < cleanup_tasks().len(),
        cleanup_tasks()[i] == CleanupTask::FlushPersisters,
        cleanup_tasks()[j] == CleanupTask::FinalizeActiveTurns,
    ensures
        i < j,
{
}

/// With the database, each active turn is finalized exactly once, after what is stored of it was
/// collected for its kind of provider, and turns keep their order.
pub proof fn every_turn_is_finalized_once(turns: nat, k: int)
    requires
        0 <= k < finalize_steps(true, turns).len(),
        turns <= usize::MAX,
    ensures
        match finalize_steps(true, turns)[k] {
            FinalizeStep::ResolveProvider(i) => k == 3 * i && i < turns,
            FinalizeStep::CollectPartial(i) => k == 3 * i + 1 && i < turns,
            FinalizeStep::Finalize(i) => k == 3 * i + 2 && i < turns,
        },
{
}

/// Without the database no turn is touched, and without an active turn there is nothing to do.
pub proof fn nothing_is_finalized_without_need(db_open: bool, turns: nat)
    requires
        !db_open || turns == 0,
    ensures
        finalize_steps(db_open, turns).len() == 0,
{
}

/// The signals of each platform, in the order of their installation: SIGTERM and, where it is asked
/// for, SIGINT on Unix; Ctrl+C and Ctrl+Break on Windows; none elsewhere.
pub proof fn platforms_have_their_signals(handle_sigint: bool)
    ensures
        handled_signals(Platform::Unix, handle_sigint).len() == (if handle_sigint {
            2nat
        } else {
            1nat
        }),
        handled_signals(Platform::Unix, handle_sigint)[0] == ShutdownSignal::Sigterm,
        handle_sigint ==> handled_signals(Platform::Unix, handle_sigint)[1]
            == ShutdownSignal::Sigint,
        handled_signals(Platform::Windows, handle_sigint).len() == 2,
        handled_signals(Platform::Windows, handle_sigint)[0] == ShutdownSignal::CtrlC,
        handled_signals(Platform::Windows, handle_sigint)[1] == ShutdownSignal::CtrlBreak,
        handled_signals(Platform::Other, handle_sigint).len() == 0,
{
}

/// Signal handlers are installed once: where none were, those of the platform are, and where some
/// were, none are. They are noted as installed either way, and the panic hook is left as it was.
pub proof fn handlers_are_installed_once(
    hooks: InstalledHooks,
    platform: Platform,
    handle_sigint: bool,
)
    ensures
        hooks.signal_handlers ==> installation(hooks, platform, handle_sigint) is None,
        !hooks.signal_handlers ==> installation(hooks, platform, handle_sigint) == Some(
            handled_signals(platform, handle_sigint),
        ),
        with_signal_handlers(hooks).signal_handlers,
        with_signal_handlers(hooks).panic_hook == hooks.panic_hook,
{
}

/// The signals of a list are those it holds.
pub proof fn lists_hold_their_signals(signals: Vec<ShutdownSignal>)
    ensures
        signals_of(Some(signals)) == Some(signals@),
        signals_of(None) is None,
{
}

/// Handlers are installed one after the other, from the first on; after the last of them the watch
/// waits. Without a signal there is no watch.
pub proof fn handlers_are_installed_in_turn(signals: Seq<ShutdownSignal>, i: usize)
    requires
        i < signals.len(),
    ensures
        first_state(Seq::empty()) == WatchState::GivenUp,
        first_state(signals) == WatchState::Installing(0),
        action_in(signals, WatchState::Installing(i)) == WatchAction::Install(signals[i as int]),
        i == signals.len() - 1 ==> state_after(
            signals,
            WatchState::Installing(i),
            WatchEvent::Installed,
        ) == WatchState::Waiting,
        i < signals.len() - 1 && i < usize::MAX ==> (state_after(
            signals,
            WatchState::Installing(i),
            WatchEvent::Installed,
        ) matches WatchState::Installing(next) && next == i + 1),
        state_after(signals, WatchState::Installing(i), WatchEvent::InstallFailed)
            == WatchState::GivenUp,
{
}

/// Each signal that is watched for starts the shutdown, which goes on by the end of the session and
/// by the cleanup to the exit.
pub proof fn every_watched_signal_ends_the_process(signals: Seq<ShutdownSignal>, i: int)
    requires
        0 <= i < signals.len(),
    ensures
        ({
            let received = state_after(
                signals,
                WatchState::Waiting,
                WatchEvent::Received(signals[i]),
            );
            let ended = state_after(signals, received, WatchEvent::SessionEnded);
            let cleaned = state_after(signals, ended, WatchEvent::CleanedUp);
            &&& action_in(signals, WatchState::Waiting) == WatchAction::Wait
            &&& action_in(signals, received) == WatchAction::EndSession(5)
            &&& action_in(signals, ended) == WatchAction::CleanUp
            &&& action_in(signals, cleaned) == WatchAction::Exit
        }),
{
    assert(signals.contains(signals[i]));
}

/// A watch does one thing in each state, and an event that it does not wait for changes nothing.
pub proof fn other_events_change_nothing(
    signals: Seq<ShutdownSignal>,
    state: WatchState,
    event: WatchEvent,
)
    ensures
        state == WatchState::Waiting && !(event matches WatchEvent::Received(signal)
            && signals.contains(signal)) ==> state_after(signals, state, event) == state,
        state == WatchState::EndingSession && event != WatchEvent::SessionEnded ==> state_after(
            signals,
            state,
            event,
        ) == state,
        state == WatchState::ShuttingDown && event != WatchEvent::CleanedUp ==> state_after(
            signals,
            state,
            event,
        ) == state,
        state is Installing && event != WatchEvent::Installed && event != WatchEvent::InstallFailed
            ==> state_after(signals, state, event) == state,
        state == WatchState::Done || state == WatchState::GivenUp ==> state_after(
            signals,
            state,
            event,
        ) == state,
        state == WatchState::EndingSession <==> action_in(signals, state)
            == WatchAction::EndSession(5),
        state == WatchState::ShuttingDown <==> action_in(signals, state) == WatchAction::CleanUp,
        state == WatchState::Done <==> action_in(signals, state) == WatchAction::Exit,
        state == WatchState::GivenUp <==> action_in(signals, state) == WatchAction::Stop,
{
}

/// The cleanup has three tasks: the mark of a clean shutdown, then the streams, then the turns.
pub proof fn cleanup_marks_flushes_and_finalizes(i: int)
    requires
        0 <= i < cleanup_tasks().len(),
    ensures
        cleanup_tasks().len() == 3,
        cleanup_tasks()[i] == CleanupTask::WriteCleanMarker <==> i == 0,
        cleanup_tasks()[i] == CleanupTask::FlushPersisters <==> i == 1,
        cleanup_tasks()[i] == CleanupTask::FinalizeActiveTurns <==> i == 2,
{
}

/// With the database there are three steps for each turn, the three of it in a row.
pub proof fn every_turn_has_its_steps(turns: nat, i: usize)
    requires
        i < turns,
    ensures
        finalize_steps(true, turns).len() == 3 * turns,
        finalize_steps(true, turns)[3 * i] == FinalizeStep::ResolveProvider(i),
        finalize_steps(true, turns)[3 * i + 1] == FinalizeStep::CollectPartial(i),
        finalize_steps(true, turns)[3 * i + 2] == FinalizeStep::Finalize(i),
        finalize_steps(false, turns).len() == 0,
{
}

} // verus!
