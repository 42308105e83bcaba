use ncspot_core::backend::BackendRequest;
use ncspot_core::command::{Arity, CommandAction, CommandError, CommandRegistry};
use ncspot_core::event::{absorb, ChannelClosed, Event, EventManager, PlayerState};
use ncspot_core::keys::{plain, KeyBindings, KeyChord};
use ncspot_core::queue::{Queue, RepeatSetting};
use ncspot_core::session::{KeyOutcome, Session};

const A: u64 = 100;
const B: u64 = 200;

fn session(tracks: Vec<u64>) -> Session {
    Session::new(Queue::new(tracks), CommandRegistry::with_defaults(), KeyBindings::defaults())
}

fn args(v: &[&str]) -> Vec<String> {
    v.iter().map(|s| s.to_string()).collect()
}

#[test]
fn seek_requires_exactly_one_argument() {
    let mut r = CommandRegistry::new();
    r.register("seek".to_string(), Arity::Exactly(1), CommandAction::Seek);
    let mut s = Session::new(Queue::new(vec![A]), r, KeyBindings::new());
    assert_eq!(
        s.dispatch(&"seek".to_string(), &args(&[])),
        Err(CommandError::InvalidArguments)
    );
    assert_eq!(
        s.dispatch(&"seek".to_string(), &args(&["30"])),
        Ok(Some(BackendRequest::Seek(30)))
    );
    assert_eq!(
        s.dispatch(&"seek".to_string(), &args(&["soon"])),
        Err(CommandError::InvalidArguments)
    );
}

#[test]
fn unknown_command_changes_nothing() {
    let mut s = session(vec![A, B]);
    s.dispatch(&"next".to_string(), &args(&[]));
    let before = s.queue().current_index();
    assert_eq!(
        s.dispatch(&"fly".to_string(), &args(&[])),
        Err(CommandError::UnknownCommand)
    );
    assert_eq!(s.queue().current_index(), before);
    assert_eq!(s.status(), PlayerState::Stopped);
    assert!(s.is_running());
}

#[test]
fn finished_track_advances_the_queue() {
    let mut q = Queue::new(vec![A, B]);
    q.play(0);
    let mut s = Session::new(q, CommandRegistry::with_defaults(), KeyBindings::defaults());
    let ev = EventManager::new();
    ev.send(Event::Player(PlayerState::FinishedTrack)).unwrap();
    let batch = ev.drain().unwrap();
    assert_eq!(s.handle_events(&batch), vec![Some(BackendRequest::Play(B))]);
    assert_eq!(s.queue().current_index(), Some(1));
    assert_eq!(s.status(), PlayerState::FinishedTrack);
}

#[test]
fn state_events_are_recorded_without_moving_the_queue() {
    let mut q = Queue::new(vec![A, B]);
    q.play(0);
    let mut s = Session::new(q, CommandRegistry::with_defaults(), KeyBindings::defaults());
    assert_eq!(s.handle_event(Event::Player(PlayerState::Playing)), None);
    assert_eq!(s.status(), PlayerState::Playing);
    assert_eq!(s.queue().current_index(), Some(0));
    assert_eq!(s.dispatch(&"playpause".to_string(), &args(&[])), Ok(Some(BackendRequest::Pause)));
    s.handle_event(Event::Player(PlayerState::Paused));
    assert_eq!(s.dispatch(&"playpause".to_string(), &args(&[])), Ok(Some(BackendRequest::Resume)));
    s.handle_event(Event::Player(PlayerState::Stopped));
    assert_eq!(s.dispatch(&"playpause".to_string(), &args(&[])), Ok(Some(BackendRequest::Play(A))));
}

#[test]
fn events_drain_in_send_order_per_producer() {
    let ev = EventManager::new();
    let p1 = ev.sender();
    let p2 = p1.duplicate();
    p1.send(Event::Player(PlayerState::Playing)).unwrap();
    p2.send(Event::Player(PlayerState::Stopped)).unwrap();
    p1.send(Event::Player(PlayerState::Paused)).unwrap();
    p2.send(Event::Player(PlayerState::FinishedTrack)).unwrap();
    p1.send(Event::Player(PlayerState::FinishedTrack)).unwrap();
    let got = ev.drain().unwrap();
    assert_eq!(
        got,
        vec![
            Event::Player(PlayerState::Playing),
            Event::Player(PlayerState::Stopped),
            Event::Player(PlayerState::Paused),
            Event::Player(PlayerState::FinishedTrack),
            Event::Player(PlayerState::FinishedTrack),
        ]
    );
    assert!(ev.drain().unwrap().is_empty());
}

#[test]
fn commands_change_modes_and_quit() {
    let mut s = session(vec![A, B]);
    assert_eq!(s.dispatch(&"repeat".to_string(), &args(&[])), Ok(None));
    assert_eq!(s.queue().repeat(), RepeatSetting::All);
    s.dispatch(&"repeat".to_string(), &args(&[]));
    assert_eq!(s.queue().repeat(), RepeatSetting::One);
    s.dispatch(&"repeat".to_string(), &args(&[]));
    assert_eq!(s.queue().repeat(), RepeatSetting::Off);
    assert_eq!(s.dispatch(&"shuffle".to_string(), &args(&[])), Ok(None));
    assert!(s.queue().is_shuffled());
    assert_eq!(s.dispatch(&"stop".to_string(), &args(&[])), Ok(Some(BackendRequest::Stop)));
    assert_eq!(
        s.dispatch(&"stop".to_string(), &args(&["now"])),
        Err(CommandError::InvalidArguments)
    );
    assert_eq!(s.dispatch(&"quit".to_string(), &args(&[])), Ok(None));
    assert!(!s.is_running());
}

#[test]
fn next_and_previous_commands_move_the_cursor() {
    let mut s = session(vec![A, B]);
    assert_eq!(s.dispatch(&"next".to_string(), &args(&[])), Ok(Some(BackendRequest::Stop)));
    assert_eq!(s.dispatch(&"previous".to_string(), &args(&[])), Ok(Some(BackendRequest::Stop)));
    assert_eq!(s.dispatch(&"previous".to_string(), &args(&[])), Ok(None));
    let mut q = Queue::new(vec![A, B]);
    q.play(0);
    let mut s = Session::new(q, CommandRegistry::with_defaults(), KeyBindings::defaults());
    assert_eq!(s.dispatch(&"next".to_string(), &args(&[])), Ok(Some(BackendRequest::Play(B))));
    assert_eq!(s.dispatch(&"previous".to_string(), &args(&[])), Ok(Some(BackendRequest::Play(A))));
}

#[test]
fn command_line_dispatches_name_and_arguments() {
    let mut s = session(vec![A]);
    assert_eq!(s.run_command_line("  seek  42 "), Ok(Some(BackendRequest::Seek(42))));
    assert_eq!(s.run_command_line("seek"), Err(CommandError::InvalidArguments));
    assert_eq!(s.run_command_line("   "), Err(CommandError::UnknownCommand));
    assert_eq!(s.run_command_line("dance now"), Err(CommandError::UnknownCommand));
}

#[test]
fn keys_resolve_to_commands() {
    let mut s = session(vec![A]);
    assert!(matches!(s.handle_key(plain(':'), true), KeyOutcome::OpenCommandLine));
    assert!(matches!(s.handle_key(plain(':'), false), KeyOutcome::OpenCommandLine));
    assert!(matches!(s.handle_key(plain('q'), true), KeyOutcome::PassThrough));
    assert!(s.is_running());
    assert!(matches!(s.handle_key(plain('x'), false), KeyOutcome::PassThrough));
    let ctrl_q = KeyChord { key: 'q', ctrl: true, alt: false };
    assert!(matches!(s.handle_key(ctrl_q, false), KeyOutcome::PassThrough));
    assert!(matches!(s.handle_key(plain('q'), false), KeyOutcome::Dispatched(Ok(None))));
    assert!(!s.is_running());
}

#[test]
fn bound_arguments_reach_the_command() {
    let mut keys = KeyBindings::new();
    keys.bind(plain('f'), "seek".to_string(), vec!["10".to_string()]);
    let mut s = Session::new(Queue::new(vec![A]), CommandRegistry::with_defaults(), keys);
    assert!(matches!(
        s.handle_key(plain('f'), false),
        KeyOutcome::Dispatched(Ok(Some(BackendRequest::Seek(10))))
    ));
}

#[test]
fn auxiliary_names_dispatch_without_arguments() {
    let mut q = Queue::new(vec![A, B]);
    q.play(0);
    let mut s = Session::new(q, CommandRegistry::with_defaults(), KeyBindings::defaults());
    assert_eq!(s.dispatch_auxiliary(&"next".to_string()), Ok(Some(BackendRequest::Play(B))));
    assert_eq!(s.dispatch_auxiliary(&"seek".to_string()), Err(CommandError::InvalidArguments));
    assert_eq!(s.dispatch_auxiliary(&"eject".to_string()), Err(CommandError::UnknownCommand));
}

#[test]
fn drain_at_most_takes_no_more_than_asked() {
    let ev = EventManager::new();
    for _ in 0..5 {
        ev.send(Event::Player(PlayerState::Playing)).unwrap();
    }
    ev.send(Event::Player(PlayerState::Paused)).unwrap();
    assert_eq!(ev.drain_at_most(2).unwrap().len(), 2);
    assert!(ev.drain_at_most(0).unwrap().is_empty());
    let rest = ev.drain_at_most(10).unwrap();
    assert_eq!(rest.len(), 4);
    assert_eq!(rest[3], Event::Player(PlayerState::Paused));
    assert!(ev.drain().unwrap().is_empty());
}

#[test]
fn absorb_appends_stops_or_fails() {
    let mut out = vec![Event::Player(PlayerState::Playing)];
    assert_eq!(absorb(&mut out, Ok(Some(Event::Player(PlayerState::Stopped)))), Ok(true));
    assert_eq!(
        out,
        vec![Event::Player(PlayerState::Playing), Event::Player(PlayerState::Stopped)]
    );
    assert_eq!(absorb(&mut out, Ok(None)), Ok(false));
    assert_eq!(out.len(), 2);
    assert_eq!(absorb(&mut out, Err(ChannelClosed)), Err(ChannelClosed));
    assert_eq!(out.len(), 2);
}
