use vstd::prelude::*;
use crossbeam_channel::{Receiver, Sender, TryRecvError};

verus! {

/// A playback state reported by the backend.
#[derive(Clone, Copy, Debug, PartialEq, Eq, Structural)]
pub enum PlayerState {
    Playing,
    Paused,
    Stopped,
    FinishedTrack,
}

/// A notification produced outside the main loop.
#[derive(Clone, Copy, Debug, PartialEq, Eq, Structural)]
pub enum Event {
    /// The backend's playback state changed.
    Player(PlayerState),
}

/// The receiving side is gone: producers must stop sending; or every producer
/// is gone: the main loop must shut down.
#[derive(Clone, Copy, Debug, PartialEq, Eq, Structural)]
pub struct ChannelClosed;

#[verifier::external_type_specification]
#[verifier::external_body]
#[verifier::reject_recursive_types(T)]
pub struct ExSender<T>(Sender<T>);

#[verifier::external_type_specification]
#[verifier::external_body]
#[verifier::reject_recursive_types(T)]
pub struct ExReceiver<T>(Receiver<T>);

/// Relies on `crossbeam_channel::unbounded`: a connected pair of ends of a
/// channel without a capacity bound.
#[verifier::external_body]
fn open_channel() -> (r: (Sender<Event>, Receiver<Event>)) {
    crossbeam_channel::unbounded()
}

/// Relies on `Sender::clone`: another handle on the same channel.
#[verifier::external_body]
fn clone_sender(tx: &Sender<Event>) -> (r: Sender<Event>) {
    tx.clone()
}

/// Relies on `Sender::send`, which on an unbounded channel never blocks and
/// fails only when every receiver is gone.
#[verifier::external_body]
fn send_on(tx: &Sender<Event>, e: Event) -> (r: Result<(), ChannelClosed>) {
    tx.send(e).map_err(|_| ChannelClosed)
}

/// Relies on `Receiver::len`: how many messages are buffered now.
#[verifier::external_body]
fn buffered(rx: &Receiver<Event>) -> (r: usize) {
    rx.len()
}

/// Relies on `Receiver::try_recv`: the oldest buffered message, `Ok(None)` when
/// none is buffered, `Err` when the channel is empty and every sender is gone.
#[verifier::external_body]
fn receive_now(rx: &Receiver<Event>) -> (r: Result<Option<Event>, ChannelClosed>) {
    match rx.try_recv() {
        Ok(e) => Ok(Some(e)),
        Err(TryRecvError::Empty) => Ok(None),
        Err(TryRecvError::Disconnected) => Err(ChannelClosed),
    }
}

/// A producer's handle on the event channel; it may be moved to any thread.
pub struct EventSender {
    tx: Sender<Event>,
}

impl EventSender {
    /// Hands `e` to the channel without blocking. Fails only once the main
    /// loop's end is gone, after which the producer should stop.
    pub fn send(&self, e: Event) -> (r: Result<(), ChannelClosed>) {
        send_on(&self.tx, e)
    }

    /// Another handle for a further producer.
    pub fn duplicate(&self) -> (r: EventSender) {
        EventSender { tx: clone_sender(&self.tx) }
    }
}

/// The consumer end of the event channel, owned by the main loop, together
/// with a sender of its own.
pub struct EventManager {
    tx: Sender<Event>,
    rx: Receiver<Event>,
}

impl EventManager {
    /// A fresh, empty channel.
    pub fn new() -> (r: EventManager) {
        let (tx, rx) = open_channel();
        EventManager { tx, rx }
    }

    /// A handle for a producer.
    pub fn sender(&self) -> (r: EventSender) {
        EventSender { tx: clone_sender(&self.tx) }
    }

    /// Sends from the main loop's own handle.
    pub fn send(&self, e: Event) -> (r: Result<(), ChannelClosed>) {
        send_on(&self.tx, e)
    }

    /// Takes, without blocking, the events buffered when the call starts, in
    /// the order the channel hands them out. At most that many are taken, so
    /// producers that keep sending cannot hold the loop here.
    pub fn drain(&self) -> (r: Result<Vec<Event>, ChannelClosed>) {
        let n = buffered(&self.rx);
        self.drain_at_most(n)
    }

    /// Takes, without blocking, at most `n` buffered events, in the order the
    /// channel hands them out; stops early once none is buffered, and fails
    /// once the channel is empty and every sender is gone.
    pub fn drain_at_most(&self, n: usize) -> (r: Result<Vec<Event>, ChannelClosed>)
        ensures
            r matches Ok(v) ==> v@.len() <= n,
    {
        let mut out: Vec<Event> = Vec::new();
        let mut i: usize = 0;
        while i < n
            invariant
                i <= n,
                out@.len() <= i,
            decreases n - i,
        {
            let got = receive_now(&self.rx);
            match absorb(&mut out, got) {
                Ok(true) => {},
                Ok(false) => {
                    return Ok(out);
                },
                Err(c) => {
                    return Err(c);
                },
            }
            i = i + 1;
        }
        Ok(out)
    }
}

/// One step of a drain: appends a received event to `out` and asks for more
/// (`Ok(true)`), reports that nothing is buffered (`Ok(false)`), or passes a
/// closed channel on.
pub fn absorb(out: &mut Vec<Event>, got: Result<Option<Event>, ChannelClosed>) -> (r: Result<
    bool,
    ChannelClosed,
>)
    ensures
        got matches Ok(Some(e)) ==> final(out)@ == old(out)@.push(e) && r == Ok::<
            bool,
            ChannelClosed,
        >(true),
        got matches Ok(None) ==> final(out)@ == old(out)@ && r == Ok::<bool, ChannelClosed>(
            false,
        ),
        got is Err ==> r is Err && final(out)@ == old(out)@,
{
    match got {
        Ok(Some(e)) => {
            out.push(e);
            Ok(true)
        },
        Ok(None) => Ok(false),
        Err(c) => Err(c),
    }
}

} // verus!
