use owl_recorder::events::{Event, Pid, PressState};
use owl_recorder::games::unsupported_games;
use owl_recorder::orchestrator::{
    ForegroundGame, InputDirective, Recorder, StartDecision, TickDirective,
};
use owl_recorder::session::Recording;

const START_KEY: u16 = 0x73;
const STOP_KEY: u16 = 0x74;

fn probe(exe: &str) -> ForegroundGame {
    ForegroundGame { exe_name: exe.to_string(), pid: Pid(4242), window: 7 }
}

fn open_session(now_instant: u64) -> Recording {
    let (session, _lines) = Recording::start(
        "doom.exe".to_string(),
        Pid(4242),
        7,
        1_700_000_000,
        0,
        now_instant,
    );
    session
}

#[test]
fn two_consecutive_starts_yield_one_session() {
    let mut rec = Recorder::new(90_000_000, 0);
    let games = unsupported_games();
    assert!(matches!(rec.decide_start(Some(&probe("doom.exe")), &games), StartDecision::Launch));
    assert!(rec.begin_session(open_session(1_000)).is_none());
    // A second start decides AlreadyRecording, and a second session is
    // handed back untouched.
    assert!(matches!(
        rec.decide_start(Some(&probe("doom.exe")), &games),
        StartDecision::AlreadyRecording
    ));
    let second = open_session(2_000);
    assert!(rec.begin_session(second).is_some());
    // Still exactly one session: taking it empties the orchestrator.
    assert!(rec.take_session().is_some());
    assert!(rec.take_session().is_none());
}

#[test]
fn two_consecutive_stops_one_real_one_noop() {
    let mut rec = Recorder::new(90_000_000, 0);
    assert!(rec.begin_session(open_session(1_000)).is_none());
    let first = rec.take_session();
    assert!(first.is_some());
    let second = rec.take_session();
    assert!(second.is_none());
}

#[test]
fn unsupported_game_yields_zero_sessions_and_cites_reason() {
    let mut rec = Recorder::new(90_000_000, 0);
    let games = unsupported_games();
    match rec.decide_start(Some(&probe("cs2.exe")), &games) {
        StartDecision::Unsupported { index } => {
            assert_eq!(games[index].name, "Counter-Strike 2");
            assert_eq!(games[index].reason, "We have enough data for now.");
        }
        other => panic!("expected a rejection, got {:?}", other),
    }
    // Nothing was started.
    assert!(rec.take_session().is_none());
}

#[test]
fn no_fullscreen_game_rejects() {
    let rec = Recorder::new(90_000_000, 0);
    let games = unsupported_games();
    assert!(matches!(rec.decide_start(None, &games), StartDecision::NoFullscreenGame));
}

#[test]
fn rollover_is_one_stop_then_one_start() {
    let mut rec = Recorder::new(1_000_000_000_000, 0);
    assert!(rec.begin_session(open_session(0)).is_none());
    // Just under the cap: keep recording.
    assert!(matches!(rec.on_tick(true, 599_000_000, 600_000_000), TickDirective::Nothing));
    // Over the cap: exactly one stop followed by exactly one start.
    assert!(matches!(
        rec.on_tick(true, 600_000_001, 600_000_000),
        TickDirective::StopThenStart
    ));
    assert!(rec.take_session().is_some());
    assert!(rec.begin_session(open_session(600_000_002)).is_none());
    // The fresh session is under the cap again.
    assert!(matches!(rec.on_tick(true, 600_000_003, 600_000_000), TickDirective::Nothing));
}

#[test]
fn vanished_process_stops_recording() {
    let mut rec = Recorder::new(1_000_000_000_000, 0);
    assert!(rec.begin_session(open_session(0)).is_none());
    assert!(matches!(rec.on_tick(false, 1_000, 600_000_000), TickDirective::StopRecording));
    assert!(rec.take_session().is_some());
    // Ticks while idle are no-ops.
    assert!(matches!(rec.on_tick(true, 2_000, 600_000_000), TickDirective::Nothing));
}

#[test]
fn idle_stop_arms_and_next_keypress_restarts() {
    // Idle threshold of five seconds.
    let mut rec = Recorder::new(5_000_000, 0);
    assert!(rec.begin_session(open_session(0)).is_none());
    // No input for five seconds while recording: stop, armed.
    assert!(matches!(rec.on_tick(true, 5_000_000, 600_000_000), TickDirective::StopAndArm));
    assert!(rec.take_session().is_some());
    // The next key press asks for a new session.
    let key = Event::KeyPress { key: 65, press_state: PressState::Pressed };
    let d = rec.on_input(&key, START_KEY, STOP_KEY, 5_000_100);
    assert!(matches!(d, InputDirective::AttemptStart));
    assert!(rec.begin_session(open_session(5_000_200)).is_none());
    // The arm fired once: a later ordinary key press does nothing.
    assert!(rec.take_session().is_some());
    let d = rec.on_input(&key, START_KEY, STOP_KEY, 5_000_300);
    assert!(matches!(d, InputDirective::Nothing));
}

#[test]
fn hotkeys_drive_start_and_stop() {
    let mut rec = Recorder::new(90_000_000, 0);
    let start = Event::KeyPress { key: START_KEY, press_state: PressState::Pressed };
    let stop = Event::KeyPress { key: STOP_KEY, press_state: PressState::Pressed };
    let release = Event::KeyPress { key: START_KEY, press_state: PressState::Released };
    assert!(matches!(
        rec.on_input(&start, START_KEY, STOP_KEY, 1),
        InputDirective::AttemptStart
    ));
    assert!(matches!(
        rec.on_input(&stop, START_KEY, STOP_KEY, 2),
        InputDirective::StopRecording
    ));
    // A key release is not a hotkey press.
    assert!(matches!(rec.on_input(&release, START_KEY, STOP_KEY, 3), InputDirective::Nothing));
}
