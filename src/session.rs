use vstd::prelude::*;
use crate::backend::BackendRequest;
use crate::command::{
    arity_admits, check_arity, decimal_value, is_decimal, latest, parse_seconds, split_words, words,
    CommandAction, CommandError, CommandRegistry, Registration,
};
use crate::event::{Event, PlayerState};
use crate::keys::{is_command_line_chord, bound_to, strings_view, KeyBindings, KeyChord, KeyResolution};
use crate::queue::{Queue, QueueView, RepeatSetting};

verus! {

/// The outcome of a command dispatch.
pub type DispatchResult = Result<Option<BackendRequest>, CommandError>;

/// The mathematical model of the main loop's state.
pub struct SessionView {
    pub queue: QueueView,
    pub registry: Seq<Registration>,
    pub status: PlayerState,
    pub running: bool,
}

/// The repeat mode that follows `r` in the cycle off, all, one.
pub open spec fn next_repeat(r: RepeatSetting) -> RepeatSetting {
    match r {
        RepeatSetting::Off => RepeatSetting::All,
        RepeatSetting::All => RepeatSetting::One,
        RepeatSetting::One => RepeatSetting::Off,
    }
}

/// The request a queue move hands the backend.
pub open spec fn move_request(before: QueueView, after: QueueView) -> Option<BackendRequest> {
    if before.tracks.len() == 0 {
        None
    } else {
        Some(after.request())
    }
}

impl SessionView {
    /// The request that play/pause issues in this state.
    pub open spec fn play_pause_request(self) -> Option<BackendRequest> {
        match self.status {
            PlayerState::Playing => Some(BackendRequest::Pause),
            PlayerState::Paused => Some(BackendRequest::Resume),
            _ => match self.queue.current {
                Some(_) => Some(self.queue.request()),
                None => None,
            },
        }
    }

    /// `f` and `r` are the state and result after performing `action` with
    /// `args` (whose count the command's rule admits) from this state.
    pub open spec fn performed(
        self,
        f: SessionView,
        action: CommandAction,
        args: Seq<Seq<char>>,
        r: DispatchResult,
    ) -> bool {
        match action {
            CommandAction::PlayPause => f == self && r == DispatchResult::Ok(self.play_pause_request()),
            CommandAction::Stop => f == self && r == DispatchResult::Ok(Some(BackendRequest::Stop)),
            CommandAction::Next => {
                &&& f == (SessionView { queue: f.queue, ..self })
                &&& self.queue.advanced_to(f.queue, true)
                &&& r == DispatchResult::Ok(move_request(self.queue, f.queue))
            },
            CommandAction::Previous => {
                &&& f == (SessionView { queue: f.queue, ..self })
                &&& self.queue.stepped_back_to(f.queue)
                &&& r == DispatchResult::Ok(
                    if self.queue.history.len() == 0 && self.queue.current.is_none() {
                        None
                    } else {
                        Some(f.queue.request())
                    },
                )
            },
            CommandAction::Seek => {
                &&& f == self
                &&& r == if args.len() >= 1 && is_decimal(args[0]) && decimal_value(args[0])
                    <= u64::MAX {
                    DispatchResult::Ok(Some(BackendRequest::Seek(decimal_value(args[0]) as u64)))
                } else {
                    DispatchResult::Err(CommandError::InvalidArguments)
                }
            },
            CommandAction::Shuffle => {
                &&& f == (SessionView { queue: f.queue, ..self })
                &&& f.queue == (QueueView {
                    shuffle: !self.queue.shuffle,
                    order: f.queue.order,
                    ..self.queue
                })
                &&& r == DispatchResult::Ok(None)
            },
            CommandAction::Repeat => {
                &&& f == (SessionView {
                    queue: QueueView { repeat: next_repeat(self.queue.repeat), ..self.queue },
                    ..self
                })
                &&& r == DispatchResult::Ok(None)
            },
            CommandAction::Quit => f == (SessionView { running: false, ..self }) && r == DispatchResult::Ok(
                None,
            ),
        }
    }

    /// `f` and `r` are the state and result after dispatching `name` with
    /// `args` from this state.
    pub open spec fn dispatched(
        self,
        f: SessionView,
        name: Seq<char>,
        args: Seq<Seq<char>>,
        r: DispatchResult,
    ) -> bool {
        match latest(self.registry, name) {
            None => r == DispatchResult::Err(CommandError::UnknownCommand)
                && f == self,
            Some((arity, action)) => if !arity_admits(arity, args.len()) {
                r == DispatchResult::Err(CommandError::InvalidArguments)
                    && f == self
            } else {
                self.performed(f, action, args, r)
            },
        }
    }

    /// `f` and `r` are the state and request after handling event `e`: the
    /// reported state is recorded, and a finished track advances the queue.
    pub open spec fn handled(self, e: Event, f: SessionView, r: Option<BackendRequest>) -> bool {
        match e {
            Event::Player(st) => {
                &&& f.registry == self.registry
                &&& f.running == self.running
                &&& f.status == st
                &&& if st == PlayerState::FinishedTrack {
                    self.queue.advanced_to(f.queue, false) && r == move_request(
                        self.queue,
                        f.queue,
                    )
                } else {
                    f.queue == self.queue && r.is_none()
                }
            },
        }
    }
}

/// What a key press came to.
pub enum KeyOutcome {
    /// The command line should open.
    OpenCommandLine,
    /// The key belongs to the focused widget.
    PassThrough,
    /// A bound command was dispatched, with this result.
    Dispatched(DispatchResult),
}

/// The state owned by the main loop: the queue, the commands, the
/// keybindings, the last reported playback state and whether to go on.
pub struct Session {
    queue: Queue,
    registry: CommandRegistry,
    keys: KeyBindings,
    status: PlayerState,
    running: bool,
}

impl View for Session {
    type V = SessionView;

    closed spec fn view(&self) -> SessionView {
        SessionView {
            queue: self.queue@,
            registry: self.registry@,
            status: self.status,
            running: self.running,
        }
    }
}

impl Session {
    /// The queue is well formed.
    pub open spec fn wf(&self) -> bool {
        self@.queue.wf()
    }

    /// The keybinding table.
    pub closed spec fn bindings(&self) -> Seq<crate::keys::BindingView> {
        self.keys@
    }

    /// A running session over `queue`, stopped, with the given commands and
    /// keybindings.
    pub fn new(queue: Queue, registry: CommandRegistry, keys: KeyBindings) -> (r: Session)
        requires
            queue@.wf(),
        ensures
            r.wf(),
            r@ == (SessionView {
                queue: queue@,
                registry: registry@,
                status: PlayerState::Stopped,
                running: true,
            }),
            r.bindings() == keys@,
    {
        Session { queue, registry, keys, status: PlayerState::Stopped, running: true }
    }

    /// Whether the loop should go on.
    pub fn is_running(&self) -> (r: bool)
        ensures
            r == self@.running,
    {
        self.running
    }

    /// The last playback state the backend reported.
    pub fn status(&self) -> (r: PlayerState)
        ensures
            r == self@.status,
    {
        self.status
    }

    /// The queue, for reading.
    pub fn queue(&self) -> (r: &Queue)
        ensures
            r@ == self@.queue,
    {
        &self.queue
    }

    fn perform(&mut self, action: CommandAction, args: &Vec<String>) -> (r: DispatchResult)
        requires
            old(self).wf(),
        ensures
            final(self).wf(),
            final(self).bindings() == old(self).bindings(),
            old(self)@.performed(final(self)@, action, strings_view(args@), r),
    {
        match action {
            CommandAction::PlayPause => {
                match self.status {
                    PlayerState::Playing => Ok(Some(BackendRequest::Pause)),
                    PlayerState::Paused => Ok(Some(BackendRequest::Resume)),
                    _ => match self.queue.current_track() {
                        Some(t) => Ok(Some(BackendRequest::Play(t))),
                        None => Ok(None),
                    },
                }
            },
            CommandAction::Stop => Ok(Some(BackendRequest::Stop)),
            CommandAction::Next => Ok(self.queue.next(true)),
            CommandAction::Previous => Ok(self.queue.previous()),
            CommandAction::Seek => {
                if args.len() == 0 {
                    return Err(CommandError::InvalidArguments);
                }
                match parse_seconds(args[0].as_str()) {
                    Some(secs) => Ok(Some(BackendRequest::Seek(secs))),
                    None => Err(CommandError::InvalidArguments),
                }
            },
            CommandAction::Shuffle => {
                let on = !self.queue.is_shuffled();
                self.queue.set_shuffle(on);
                Ok(None)
            },
            CommandAction::Repeat => {
                let r = match self.queue.repeat() {
                    RepeatSetting::Off => RepeatSetting::All,
                    RepeatSetting::All => RepeatSetting::One,
                    RepeatSetting::One => RepeatSetting::Off,
                };
                self.queue.set_repeat(r);
                Ok(None)
            },
            CommandAction::Quit => {
                self.running = false;
                Ok(None)
            },
        }
    }

    /// Runs the command registered under `name` with `args`. An unknown name
    /// fails with `UnknownCommand` and an argument count that the command's
    /// rule refuses with `InvalidArguments`; neither changes any state.
    pub fn dispatch(&mut self, name: &String, args: &Vec<String>) -> (r: DispatchResult)
        requires
            old(self).wf(),
        ensures
            final(self).wf(),
            final(self).bindings() == old(self).bindings(),
            old(self)@.dispatched(final(self)@, name@, strings_view(args@), r),
    {
        match self.registry.lookup(name) {
            None => Err(CommandError::UnknownCommand),
            Some((arity, action)) => {
                if !check_arity(arity, args.len()) {
                    Err(CommandError::InvalidArguments)
                } else {
                    self.perform(action, args)
                }
            },
        }
    }

    /// Handles a name that an auxiliary source (a media key) produced: it is
    /// dispatched as a command without arguments.
    pub fn dispatch_auxiliary(&mut self, name: &String) -> (r: DispatchResult)
        requires
            old(self).wf(),
        ensures
            final(self).wf(),
            final(self).bindings() == old(self).bindings(),
            old(self)@.dispatched(final(self)@, name@, Seq::empty(), r),
    {
        let args: Vec<String> = Vec::new();
        assert(strings_view(args@) =~= Seq::<Seq<char>>::empty());
        self.dispatch(name, &args)
    }

    /// Handles a key press: opens the command line, passes the key through,
    /// or dispatches the bound command.
    pub fn handle_key(&mut self, chord: KeyChord, text_focus: bool) -> (r: KeyOutcome)
        requires
            old(self).wf(),
        ensures
            final(self).wf(),
            final(self).bindings() == old(self).bindings(),
            is_command_line_chord(chord) ==> r is OpenCommandLine && final(self)@ == old(self)@,
            !is_command_line_chord(chord) && text_focus ==> r is PassThrough && final(self)@
                == old(self)@,
            !is_command_line_chord(chord) && !text_focus ==> match bound_to(
                old(self).bindings(),
                chord,
            ) {
                Some((name, args)) => r matches KeyOutcome::Dispatched(d) && old(self)@.dispatched(
                    final(self)@,
                    name,
                    args,
                    d,
                ),
                None => r is PassThrough && final(self)@ == old(self)@,
            },
    {
        match self.keys.resolve(chord, text_focus) {
            KeyResolution::OpenCommandLine => KeyOutcome::OpenCommandLine,
            KeyResolution::PassThrough => KeyOutcome::PassThrough,
            KeyResolution::Command(name, args) => KeyOutcome::Dispatched(
                self.dispatch(&name, &args),
            ),
        }
    }

    /// Applies one event from the channel.
    pub fn handle_event(&mut self, e: Event) -> (r: Option<BackendRequest>)
        requires
            old(self).wf(),
        ensures
            final(self).wf(),
            final(self).bindings() == old(self).bindings(),
            old(self)@.handled(e, final(self)@, r),
    {
        match e {
            Event::Player(st) => {
                self.status = st;
                if st == PlayerState::FinishedTrack {
                    self.queue.next(false)
                } else {
                    None
                }
            },
        }
    }

    /// Applies a batch of drained events in order, giving for each the
    /// request, if any, to hand the backend.
    pub fn handle_events(&mut self, events: &Vec<Event>) -> (r: Vec<Option<BackendRequest>>)
        requires
            old(self).wf(),
        ensures
            final(self).wf(),
            final(self).bindings() == old(self).bindings(),
            r@.len() == events@.len(),
            exists|states: Seq<SessionView>|
                {
                    &&& states.len() == events@.len() + 1
                    &&& states[0] == old(self)@
                    &&& states.last() == final(self)@
                    &&& forall|i: int|
                        0 <= i < events@.len() ==> states[i].handled(
                            #[trigger] events@[i],
                            states[i + 1],
                            r@[i],
                        )
                },
    {
        let mut out: Vec<Option<BackendRequest>> = Vec::new();
        let ghost mut states: Seq<SessionView> = seq![self@];
        let mut i: usize = 0;
        while i < events.len()
            invariant
                self.wf(),
                self.bindings() == old(self).bindings(),
                i <= events@.len(),
                out@.len() == i,
                states.len() == i + 1,
                states[0] == old(self)@,
                states.last() == self@,
                forall|j: int|
                    0 <= j < i ==> states[j].handled(#[trigger] events@[j], states[j + 1], out@[j]),
            decreases events@.len() - i,
        {
            let req = self.handle_event(events[i]);
            out.push(req);
            proof {
                states = states.push(self@);
            }
            i = i + 1;
        }
        out
    }

    /// Runs a typed command line: its first word names the command and the
    /// rest are its arguments. A line without words fails with
    /// `UnknownCommand` and changes nothing.
    pub fn run_command_line(&mut self, line: &str) -> (r: DispatchResult)
        requires
            old(self).wf(),
        ensures
            final(self).wf(),
            final(self).bindings() == old(self).bindings(),
            words(line@).len() == 0 ==> r == DispatchResult::Err(CommandError::UnknownCommand)
                && final(self)@ == old(self)@,
            words(line@).len() > 0 ==> old(self)@.dispatched(
                final(self)@,
                words(line@)[0],
                words(line@).drop_first(),
                r,
            ),
    {
        let mut w = split_words(line);
        if w.len() == 0 {
            return Err(CommandError::UnknownCommand);
        }
        let ghost all = w@;
        let name = w.remove(0);
        assert(strings_view(w@) =~= strings_view(all).drop_first());
        self.dispatch(&name, &w)
    }
}

/// Dispatching a name that no registration holds fails with `UnknownCommand`
/// and leaves the queue, the player state and everything else unchanged.
pub proof fn lemma_unknown_command_changes_nothing(
    s: SessionView,
    f: SessionView,
    name: Seq<char>,
    args: Seq<Seq<char>>,
    r: DispatchResult,
)
    requires
        latest(s.registry, name).is_none(),
        s.dispatched(f, name, args, r),
    ensures
        r == DispatchResult::Err(CommandError::UnknownCommand),
        f == s,
{
}

} // verus!
