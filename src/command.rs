use vstd::prelude::*;
use vstd::string::StrSliceExecFns;
use crate::keys::strings_view;

verus! {

/// The rule that a command's argument count must meet.
#[derive(Clone, Copy, Debug, PartialEq, Eq, Structural)]
pub enum Arity {
    /// Exactly this many arguments.
    Exactly(usize),
    /// At most this many arguments.
    AtMost(usize),
    /// Any number of arguments.
    Any,
}

/// Whether `n` arguments meet the rule `a`.
pub open spec fn arity_admits(a: Arity, n: nat) -> bool {
    match a {
        Arity::Exactly(k) => n == k,
        Arity::AtMost(k) => n <= k,
        Arity::Any => true,
    }
}

/// Checks an argument count against a rule.
pub fn check_arity(a: Arity, n: usize) -> (r: bool)
    ensures
        r == arity_admits(a, n as nat),
{
    match a {
        Arity::Exactly(k) => n == k,
        Arity::AtMost(k) => n <= k,
        Arity::Any => true,
    }
}

/// What a registered command does to the player and queue state.
#[derive(Clone, Copy, Debug, PartialEq, Eq, Structural)]
pub enum CommandAction {
    /// Pause when playing, resume when paused, else play the current track.
    PlayPause,
    /// Stop playback.
    Stop,
    /// Explicitly advance the queue.
    Next,
    /// Step the queue back.
    Previous,
    /// Seek to the whole number of seconds given as the single argument.
    Seek,
    /// Toggle shuffle mode.
    Shuffle,
    /// Cycle the repeat mode: off, all, one, off.
    Repeat,
    /// Ask the main loop to shut down.
    Quit,
}

/// Why a command dispatch failed.
#[derive(Clone, Copy, Debug, PartialEq, Eq, Structural)]
pub enum CommandError {
    /// No command of that name is registered.
    UnknownCommand,
    /// The arguments do not meet the command's rule.
    InvalidArguments,
}

/// A registered command: its name, argument rule and action.
pub struct CommandDefinition {
    pub name: String,
    pub arity: Arity,
    pub action: CommandAction,
}

/// The registered commands, in registration order. A later registration of a
/// name overrides every earlier one.
pub struct CommandRegistry {
    entries: Vec<CommandDefinition>,
}

/// The model of one registration.
pub type Registration = (Seq<char>, Arity, CommandAction);

/// The most recent registration of `name` in `s`.
pub open spec fn latest(s: Seq<Registration>, name: Seq<char>) -> Option<(Arity, CommandAction)>
    decreases s.len(),
{
    if s.len() == 0 {
        None
    } else if s.last().0 == name {
        Some((s.last().1, s.last().2))
    } else {
        latest(s.drop_last(), name)
    }
}

impl View for CommandRegistry {
    type V = Seq<Registration>;

    closed spec fn view(&self) -> Seq<Registration> {
        Seq::new(
            self.entries@.len(),
            |i: int| (self.entries@[i].name@, self.entries@[i].arity, self.entries@[i].action),
        )
    }
}

impl CommandRegistry {
    /// A registry with no commands.
    pub fn new() -> (r: CommandRegistry)
        ensures
            r@.len() == 0,
    {
        CommandRegistry { entries: Vec::new() }
    }

    /// Registers `action` under `name` with argument rule `arity`, overriding
    /// any earlier registration of that name.
    pub fn register(&mut self, name: String, arity: Arity, action: CommandAction)
        ensures
            final(self)@ == old(self)@.push((name@, arity, action)),
    {
        self.entries.push(CommandDefinition { name, arity, action });
        assert(self@ =~= old(self)@.push((name@, arity, action)));
    }

    /// The argument rule and action registered under `name`, if any.
    pub fn lookup(&self, name: &String) -> (r: Option<(Arity, CommandAction)>)
        ensures
            r == latest(self@, name@),
    {
        let mut i: usize = self.entries.len();
        assert(self@.take(i as int) =~= self@);
        while i > 0
            invariant
                i <= self@.len(),
                self@.len() == self.entries@.len(),
                latest(self@, name@) == latest(self@.take(i as int), name@),
            decreases i,
        {
            let e = &self.entries[i - 1];
            assert(self@.take(i - 1) =~= self@.take(i as int).drop_last());
            if e.name == *name {
                return Some((e.arity, e.action));
            }
            i = i - 1;
        }
        None
    }

    /// The registry with the standard commands.
    pub fn with_defaults() -> (r: CommandRegistry)
        ensures
            r@ == default_registrations(),
    {
        let mut r = CommandRegistry::new();
        r.register(String::from_str("playpause"), Arity::Exactly(0), CommandAction::PlayPause);
        r.register(String::from_str("stop"), Arity::Exactly(0), CommandAction::Stop);
        r.register(String::from_str("next"), Arity::Exactly(0), CommandAction::Next);
        r.register(String::from_str("previous"), Arity::Exactly(0), CommandAction::Previous);
        r.register(String::from_str("seek"), Arity::Exactly(1), CommandAction::Seek);
        r.register(String::from_str("shuffle"), Arity::Exactly(0), CommandAction::Shuffle);
        r.register(String::from_str("repeat"), Arity::Exactly(0), CommandAction::Repeat);
        r.register(String::from_str("quit"), Arity::Exactly(0), CommandAction::Quit);
        assert(r@ =~= default_registrations());
        r
    }
}

/// The standard commands, in registration order.
pub open spec fn default_registrations() -> Seq<Registration> {
    seq![
        ("playpause"@, Arity::Exactly(0), CommandAction::PlayPause),
        ("stop"@, Arity::Exactly(0), CommandAction::Stop),
        ("next"@, Arity::Exactly(0), CommandAction::Next),
        ("previous"@, Arity::Exactly(0), CommandAction::Previous),
        ("seek"@, Arity::Exactly(1), CommandAction::Seek),
        ("shuffle"@, Arity::Exactly(0), CommandAction::Shuffle),
        ("repeat"@, Arity::Exactly(0), CommandAction::Repeat),
        ("quit"@, Arity::Exactly(0), CommandAction::Quit),
    ]
}

/// A decimal digit.
pub open spec fn is_digit(c: char) -> bool {
    '0' <= c <= '9'
}

/// The value of a digit character.
pub open spec fn digit_value(c: char) -> int {
    (c as u32) - ('0' as u32)
}

/// A non-empty run of decimal digits.
pub open spec fn is_decimal(s: Seq<char>) -> bool {
    s.len() > 0 && forall|i: int| 0 <= i < s.len() ==> is_digit(#[trigger] s[i])
}

/// The number that a run of decimal digits denotes.
pub open spec fn decimal_value(s: Seq<char>) -> int
    decreases s.len(),
{
    if s.len() == 0 {
        0
    } else {
        decimal_value(s.drop_last()) * 10 + digit_value(s.last())
    }
}

proof fn lemma_decimal_prefix_le(s: Seq<char>, k: int)
    requires
        0 <= k <= s.len(),
        forall|i: int| 0 <= i < s.len() ==> is_digit(#[trigger] s[i]),
    ensures
        decimal_value(s.take(k)) <= decimal_value(s),
        decimal_value(s.take(k)) >= 0,
    decreases s.len(),
{
    if k == s.len() {
        assert(s.take(k) =~= s);
        lemma_decimal_nonneg(s);
    } else {
        let t = s.drop_last();
        assert(s.take(k) =~= t.take(k));
        lemma_decimal_prefix_le(t, k);
        lemma_decimal_nonneg(t);
    }
}

proof fn lemma_decimal_nonneg(s: Seq<char>)
    requires
        forall|i: int| 0 <= i < s.len() ==> is_digit(#[trigger] s[i]),
    ensures
        decimal_value(s) >= 0,
    decreases s.len(),
{
    if s.len() > 0 {
        let t = s.drop_last();
        assert forall|i: int| 0 <= i < t.len() implies is_digit(#[trigger] t[i]) by {
            assert(t[i] == s[i]);
        }
        lemma_decimal_nonneg(t);
        assert(is_digit(s[s.len() - 1]));
    }
}

/// Parses a whole number of seconds written in decimal digits. Returns `None`
/// when the text is empty, holds anything but digits, or exceeds `u64`.
pub fn parse_seconds(s: &str) -> (r: Option<u64>)
    ensures
        r == if is_decimal(s@) && decimal_value(s@) <= u64::MAX {
            Some(decimal_value(s@) as u64)
        } else {
            None
        },
{
    let n = s.unicode_len();
    if n == 0 {
        return None;
    }
    let mut i: usize = 0;
    while i < n
        invariant
            n == s@.len(),
            i <= n,
            forall|j: int| 0 <= j < i ==> is_digit(#[trigger] s@[j]),
        decreases n - i,
    {
        let c = s.get_char(i);
        if !('0' <= c && c <= '9') {
            return None;
        }
        i = i + 1;
    }
    let mut v: u64 = 0;
    let mut i: usize = 0;
    while i < n
        invariant
            n == s@.len(),
            i <= n,
            is_decimal(s@),
            v == decimal_value(s@.take(i as int)),
        decreases n - i,
    {
        let c = s.get_char(i);
        let d = (c as u32 - '0' as u32) as u64;
        assert(s@.take(i + 1).drop_last() =~= s@.take(i as int));
        proof {
            lemma_decimal_prefix_le(s@, i + 1);
        }
        match v.checked_mul(10) {
            Some(m) => match m.checked_add(d) {
                Some(w) => {
                    v = w;
                },
                None => {
                    return None;
                },
            },
            None => {
                return None;
            },
        }
        i = i + 1;
    }
    assert(s@.take(n as int) =~= s@);
    Some(v)
}

/// The state of a left-to-right scan that splits text into words at spaces:
/// the finished words and the word in progress.
pub open spec fn scan_words(s: Seq<char>) -> (Seq<Seq<char>>, Seq<char>)
    decreases s.len(),
{
    if s.len() == 0 {
        (Seq::empty(), Seq::empty())
    } else {
        let (done, cur) = scan_words(s.drop_last());
        if s.last() == ' ' {
            if cur.len() > 0 {
                (done.push(cur), Seq::empty())
            } else {
                (done, cur)
            }
        } else {
            (done, cur.push(s.last()))
        }
    }
}

/// The maximal runs of non-space characters of `s`, in order.
pub open spec fn words(s: Seq<char>) -> Seq<Seq<char>> {
    let (done, cur) = scan_words(s);
    if cur.len() > 0 {
        done.push(cur)
    } else {
        done
    }
}

/// Splits a typed command line into its words: the command name and its
/// arguments, separated by runs of spaces.
pub fn split_words(line: &str) -> (r: Vec<String>)
    ensures
        strings_view(r@) == words(line@),
{
    let n = line.unicode_len();
    let mut out: Vec<String> = Vec::new();
    let mut start: usize = 0;
    let mut i: usize = 0;
    while i < n
        invariant
            n == line@.len(),
            start <= i <= n,
            scan_words(line@.take(i as int)) == (
                strings_view(out@),
                line@.subrange(start as int, i as int),
            ),
        decreases n - i,
    {
        let c = line.get_char(i);
        assert(line@.take(i + 1).drop_last() =~= line@.take(i as int));
        let ghost prev = out@;
        if c == ' ' {
            if start < i {
                let w = line.substring_char(start, i).to_owned();
                out.push(w);
                assert(strings_view(out@) =~= strings_view(prev).push(
                    line@.subrange(start as int, i as int),
                ));
            }
            start = i + 1;
            assert(line@.subrange(start as int, i + 1) =~= Seq::<char>::empty());
        } else {
            assert(line@.subrange(start as int, i + 1) =~= line@.subrange(
                start as int,
                i as int,
            ).push(c));
        }
        i = i + 1;
    }
    assert(line@.take(n as int) =~= line@);
    if start < n {
        let ghost prev = out@;
        let w = line.substring_char(start, n).to_owned();
        out.push(w);
        assert(strings_view(out@) =~= strings_view(prev).push(
            line@.subrange(start as int, n as int),
        ));
    }
    out
}

} // verus!
