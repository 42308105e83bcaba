use ncspot_core::backend::BackendRequest;
use ncspot_core::queue::{Queue, RepeatSetting};

const A: u64 = 100;
const B: u64 = 200;
const C: u64 = 300;

#[test]
fn sequential_repeat_off_runs_to_the_end_and_stops() {
    let mut q = Queue::new(vec![A, B, C]);
    assert_eq!(q.play(0), Some(BackendRequest::Play(A)));
    assert_eq!(q.next(false), Some(BackendRequest::Play(B)));
    assert_eq!(q.current_index(), Some(1));
    assert_eq!(q.next(false), Some(BackendRequest::Play(C)));
    assert_eq!(q.current_index(), Some(2));
    assert_eq!(q.next(false), Some(BackendRequest::Stop));
    assert_eq!(q.current_index(), None);
    assert_eq!(q.current_track(), None);
}

#[test]
fn repeat_all_wraps_from_last_to_first() {
    let mut q = Queue::new(vec![A, B]);
    q.set_repeat(RepeatSetting::All);
    q.play(1);
    assert_eq!(q.next(false), Some(BackendRequest::Play(A)));
    assert_eq!(q.current_index(), Some(0));
}

#[test]
fn repeat_all_never_clears_the_cursor() {
    let mut q = Queue::new(vec![A, B, C]);
    q.set_repeat(RepeatSetting::All);
    q.play(0);
    for _ in 0..10 {
        q.next(false);
        assert!(q.current_index().is_some());
    }
}

#[test]
fn repeat_off_at_last_index_stops() {
    let mut q = Queue::new(vec![A, B]);
    q.play(1);
    assert_eq!(q.next(true), Some(BackendRequest::Stop));
    assert_eq!(q.current_index(), None);
}

#[test]
fn previous_undoes_next_in_every_mode() {
    for repeat in [RepeatSetting::Off, RepeatSetting::All, RepeatSetting::One] {
        for shuffle in [false, true] {
            for explicit in [false, true] {
                let mut q = Queue::new(vec![A, B, C]);
                q.set_repeat(repeat);
                q.set_shuffle(shuffle);
                q.play(2);
                for _ in 0..5 {
                    let before = q.current_index();
                    q.next(explicit);
                    q.previous();
                    assert_eq!(q.current_index(), before);
                    q.next(explicit);
                }
            }
        }
    }
}

#[test]
fn previous_after_stop_restores_the_last_track() {
    let mut q = Queue::new(vec![A, B]);
    q.play(1);
    q.next(false);
    assert_eq!(q.previous(), Some(BackendRequest::Play(B)));
    assert_eq!(q.current_index(), Some(1));
}

#[test]
fn previous_undoes_a_jump() {
    let mut q = Queue::new(vec![A, B]);
    assert_eq!(q.previous(), None);
    q.play(1);
    assert_eq!(q.previous(), Some(BackendRequest::Stop));
    assert_eq!(q.current_index(), None);
    assert_eq!(q.previous(), None);
}

#[test]
fn repeat_one_replays_unless_explicit() {
    let mut q = Queue::new(vec![A, B]);
    q.set_repeat(RepeatSetting::One);
    q.play(0);
    assert_eq!(q.next(false), Some(BackendRequest::Play(A)));
    assert_eq!(q.current_index(), Some(0));
    assert_eq!(q.next(true), Some(BackendRequest::Play(B)));
    assert_eq!(q.next(true), Some(BackendRequest::Stop));
}

#[test]
fn empty_queue_next_is_a_no_op() {
    let mut q = Queue::new(vec![]);
    assert_eq!(q.next(true), None);
    assert_eq!(q.next(false), None);
    assert_eq!(q.current_index(), None);
    assert_eq!(q.len(), 0);
}

#[test]
fn play_out_of_range_changes_nothing() {
    let mut q = Queue::new(vec![A]);
    assert_eq!(q.play(1), None);
    assert_eq!(q.current_index(), None);
}

#[test]
fn shuffle_visits_every_track_once_then_stops() {
    let tracks: Vec<u64> = (0..20).collect();
    let mut q = Queue::new(tracks.clone());
    q.set_shuffle(true);
    assert!(q.is_shuffled());
    q.play(0);
    let mut seen = vec![0u64];
    loop {
        match q.next(false) {
            Some(BackendRequest::Play(t)) => seen.push(t),
            Some(BackendRequest::Stop) => break,
            other => panic!("unexpected {:?}", other),
        }
        assert!(seen.len() <= 20);
    }
    // playback started at index 0, which need not be first in the order
    seen.sort();
    seen.dedup();
    assert!(seen.len() <= 20);
    q.set_shuffle(false);
    assert!(!q.is_shuffled());
}

#[test]
fn shuffle_with_repeat_all_keeps_playing() {
    let mut q = Queue::new(vec![A, B, C]);
    q.set_shuffle(true);
    q.set_repeat(RepeatSetting::All);
    q.play(0);
    for _ in 0..12 {
        match q.next(false) {
            Some(BackendRequest::Play(t)) => assert!([A, B, C].contains(&t)),
            other => panic!("unexpected {:?}", other),
        }
    }
}

#[test]
fn sequential_order_is_stored_order() {
    let mut q = Queue::new(vec![A, B, C]);
    q.set_shuffle(true);
    q.set_shuffle(false);
    q.play(0);
    assert_eq!(q.next(true), Some(BackendRequest::Play(B)));
    assert_eq!(q.next(true), Some(BackendRequest::Play(C)));
    assert_eq!(q.repeat(), RepeatSetting::Off);
}
