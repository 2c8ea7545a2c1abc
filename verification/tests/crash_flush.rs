//! Clean shutdown, and the local embedding models that are not there.

use hope_core::crash_flush::{
    clean_shutdown_no_exit, finalize_active_turns_for_shutdown, install_panic_hook,
    install_signal_handlers, install_signal_handlers_with_sigint, shutdown_request, watch_action,
    watch_begins, watch_goes_on, CleanupTask, FinalizeStep, InstalledHooks, PartialMeta, Platform,
    ShutdownSignal, TerminationReason, TurnSnapshot, WatchAction, WatchEvent, WatchState,
    SESSION_END_TIMEOUT_SECS,
};
use hope_core::local_embedding::LocalEmbeddingProvider;

#[test]
fn panic_hook_is_noted_once_and_for_all() {
    let mut hooks = InstalledHooks::new();
    install_panic_hook(&mut hooks);
    install_panic_hook(&mut hooks);
    assert_eq!(hooks, InstalledHooks { panic_hook: true, signal_handlers: false });
}

#[test]
fn handlers_are_installed_once() {
    let mut hooks = InstalledHooks::new();
    assert!(install_signal_handlers(&mut hooks, Platform::Unix, false).is_some());
    assert!(install_signal_handlers(&mut hooks, Platform::Unix, false).is_none());
    assert!(install_signal_handlers_with_sigint(&mut hooks, Platform::Unix, false).is_none());
    assert_eq!(hooks, InstalledHooks { panic_hook: false, signal_handlers: true });
}

#[test]
fn first_installation_decides() {
    let mut hooks = InstalledHooks::new();
    assert_eq!(
        install_signal_handlers(&mut hooks, Platform::Unix, true),
        Some(vec![ShutdownSignal::Sigterm])
    );
    let installed = hooks;
    assert!(install_signal_handlers_with_sigint(&mut hooks, Platform::Unix, true).is_none());
    assert!(install_signal_handlers(&mut hooks, Platform::Unix, true).is_none());
    assert_eq!(hooks, installed);
}

#[test]
fn desktop_leaves_sigint_alone() {
    let signals = |platform: Platform, desktop: bool| {
        install_signal_handlers(&mut InstalledHooks::new(), platform, desktop).unwrap()
    };
    let forced = |platform: Platform, desktop: bool| {
        install_signal_handlers_with_sigint(&mut InstalledHooks::new(), platform, desktop).unwrap()
    };
    let both = vec![ShutdownSignal::Sigterm, ShutdownSignal::Sigint];
    assert_eq!(signals(Platform::Unix, true), vec![ShutdownSignal::Sigterm]);
    assert_eq!(signals(Platform::Unix, false), both);
    assert_eq!(forced(Platform::Unix, true), both);
    let windows = vec![ShutdownSignal::CtrlC, ShutdownSignal::CtrlBreak];
    assert_eq!(signals(Platform::Windows, true), windows);
    assert_eq!(forced(Platform::Windows, false), windows);
    assert_eq!(signals(Platform::Other, false), Vec::new());
}

#[test]
fn signal_leads_to_a_clean_exit() {
    let signals = vec![ShutdownSignal::Sigterm, ShutdownSignal::Sigint];
    let mut state = watch_begins(&signals);
    let mut actions = vec![watch_action(&signals, state)];
    for event in [
        WatchEvent::Installed,
        WatchEvent::Installed,
        WatchEvent::Received(ShutdownSignal::Sigint),
        WatchEvent::SessionEnded,
        WatchEvent::CleanedUp,
    ] {
        state = watch_goes_on(&signals, state, event);
        actions.push(watch_action(&signals, state));
    }
    assert_eq!(
        actions,
        vec![
            WatchAction::Install(ShutdownSignal::Sigterm),
            WatchAction::Install(ShutdownSignal::Sigint),
            WatchAction::Wait,
            WatchAction::EndSession(5),
            WatchAction::CleanUp,
            WatchAction::Exit,
        ]
    );
    assert_eq!(SESSION_END_TIMEOUT_SECS, 5);
}

#[test]
fn failed_handler_ends_the_watch() {
    let signals = vec![ShutdownSignal::Sigterm, ShutdownSignal::Sigint];
    let state = watch_goes_on(&signals, watch_begins(&signals), WatchEvent::Installed);
    let state = watch_goes_on(&signals, state, WatchEvent::InstallFailed);
    assert_eq!(state, WatchState::GivenUp);
    assert_eq!(watch_action(&signals, state), WatchAction::Stop);
    assert_eq!(watch_begins(&Vec::new()), WatchState::GivenUp);
}

#[test]
fn events_that_are_not_awaited_change_nothing() {
    let signals = vec![ShutdownSignal::Sigterm];
    let waiting = watch_goes_on(&signals, watch_begins(&signals), WatchEvent::Installed);
    assert_eq!(waiting, WatchState::Waiting);
    for event in [
        WatchEvent::Installed,
        WatchEvent::InstallFailed,
        WatchEvent::Received(ShutdownSignal::Sigint),
        WatchEvent::SessionEnded,
        WatchEvent::CleanedUp,
    ] {
        assert_eq!(watch_goes_on(&signals, waiting, event), WatchState::Waiting);
    }
}

#[test]
fn flush_comes_before_finalize() {
    assert_eq!(
        clean_shutdown_no_exit(),
        vec![
            CleanupTask::WriteCleanMarker,
            CleanupTask::FlushPersisters,
            CleanupTask::FinalizeActiveTurns,
        ]
    );
}

fn turn(n: u32) -> TurnSnapshot<u32> {
    TurnSnapshot { session_id: format!("session-{}", n), turn_id: format!("turn-{}", n), source: n }
}

#[test]
fn every_turn_is_finalized_once() {
    assert_eq!(
        finalize_active_turns_for_shutdown(true, &vec![turn(1), turn(2)]),
        vec![
            FinalizeStep::ResolveProvider(0),
            FinalizeStep::CollectPartial(0),
            FinalizeStep::Finalize(0),
            FinalizeStep::ResolveProvider(1),
            FinalizeStep::CollectPartial(1),
            FinalizeStep::Finalize(1),
        ]
    );
    assert!(finalize_active_turns_for_shutdown(true, &Vec::<TurnSnapshot<u32>>::new()).is_empty());
    assert!(finalize_active_turns_for_shutdown(false, &vec![turn(1)]).is_empty());
}

#[test]
fn request_names_the_turn_and_keeps_the_rest() {
    let partial = PartialMeta { turn_id: Some("other".to_string()), rest: vec!["text"] };
    let request = shutdown_request(turn(7), partial);
    assert_eq!(request.session_id, "session-7");
    assert_eq!(request.reason, TerminationReason::Shutdown);
    assert_eq!(request.partial.turn_id.as_deref(), Some("turn-7"));
    assert_eq!(request.partial.rest, vec!["text"]);
    assert_eq!(request.source, 7);
}

#[test]
fn local_models_are_refused() {
    let refusal = LocalEmbeddingProvider::new("bge-small").unwrap_err();
    assert_eq!(
        refusal,
        "Local embedding model 'bge-small' is not available — the `local-embeddings` feature is \
         disabled (ort-sys / fastembed not compiled in). Use an API-based embedding provider instead."
    );
}
