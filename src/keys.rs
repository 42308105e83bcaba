use vstd::prelude::*;

verus! {

/// A key press together with its modifier state.
#[derive(Clone, Copy, Debug, PartialEq, Eq, Structural)]
pub struct KeyChord {
    pub key: char,
    pub ctrl: bool,
    pub alt: bool,
}

/// The chord that opens the command line from anywhere: a bare `:`.
pub open spec fn is_command_line_chord(c: KeyChord) -> bool {
    c.key == ':' && !c.ctrl && !c.alt
}

/// A chord bound to a command invocation: a name and literal arguments.
pub struct KeyBinding {
    pub chord: KeyChord,
    pub command: String,
    pub args: Vec<String>,
}

/// The model of one binding.
pub type BindingView = (KeyChord, Seq<char>, Seq<Seq<char>>);

/// The views of a list of strings.
pub open spec fn strings_view(v: Seq<String>) -> Seq<Seq<char>> {
    v.map_values(|s: String| s@)
}

/// The command invocation that the most recent binding of `c` in `s` holds.
pub open spec fn bound_to(s: Seq<BindingView>, c: KeyChord) -> Option<(Seq<char>, Seq<Seq<char>>)>
    decreases s.len(),
{
    if s.len() == 0 {
        None
    } else if s.last().0 == c {
        Some((s.last().1, s.last().2))
    } else {
        bound_to(s.drop_last(), c)
    }
}

/// What a key press leads to.
pub enum KeyResolution {
    /// Open the command line.
    OpenCommandLine,
    /// Dispatch this command with these arguments.
    Command(String, Vec<String>),
    /// Leave the key to the focused widget.
    PassThrough,
}

/// The keybinding table; a later binding of a chord overrides earlier ones.
pub struct KeyBindings {
    entries: Vec<KeyBinding>,
}

impl View for KeyBindings {
    type V = Seq<BindingView>;

    closed spec fn view(&self) -> Seq<BindingView> {
        Seq::new(
            self.entries@.len(),
            |i: int|
                (
                    self.entries@[i].chord,
                    self.entries@[i].command@,
                    strings_view(self.entries@[i].args@),
                ),
        )
    }
}

/// A copy of a list of strings.
fn copy_strings(v: &Vec<String>) -> (r: Vec<String>)
    ensures
        strings_view(r@) == strings_view(v@),
{
    let mut out: Vec<String> = Vec::new();
    let mut i: usize = 0;
    while i < v.len()
        invariant
            i <= v@.len(),
            out@ =~= v@.take(i as int),
        decreases v@.len() - i,
    {
        out.push(v[i].clone());
        assert(out@ =~= v@.take(i + 1));
        i = i + 1;
    }
    assert(v@.take(i as int) =~= v@);
    out
}

/// A chord without modifiers.
pub fn plain(key: char) -> (r: KeyChord)
    ensures
        r == (KeyChord { key, ctrl: false, alt: false }),
{
    KeyChord { key, ctrl: false, alt: false }
}

impl KeyBindings {
    /// A table with no bindings.
    pub fn new() -> (r: KeyBindings)
        ensures
            r@.len() == 0,
    {
        KeyBindings { entries: Vec::new() }
    }

    /// Binds `chord` to `command` with `args`, overriding earlier bindings of
    /// the chord.
    pub fn bind(&mut self, chord: KeyChord, command: String, args: Vec<String>)
        ensures
            final(self)@ == old(self)@.push((chord, command@, strings_view(args@))),
    {
        let ghost entry = (chord, command@, strings_view(args@));
        self.entries.push(KeyBinding { chord, command, args });
        assert(self@ =~= old(self)@.push(entry));
    }

    /// The bindings used when the configuration sets none.
    pub fn defaults() -> (r: KeyBindings)
        ensures
            r@ == default_bindings(),
    {
        let mut r = KeyBindings::new();
        r.bind(plain('q'), String::from_str("quit"), Vec::new());
        r.bind(plain('P'), String::from_str("playpause"), Vec::new());
        r.bind(plain('S'), String::from_str("stop"), Vec::new());
        r.bind(plain('<'), String::from_str("previous"), Vec::new());
        r.bind(plain('>'), String::from_str("next"), Vec::new());
        r.bind(plain('r'), String::from_str("repeat"), Vec::new());
        r.bind(plain('z'), String::from_str("shuffle"), Vec::new());
        assert(strings_view(Seq::<String>::empty()) =~= Seq::<Seq<char>>::empty());
        assert(r@ =~= default_bindings());
        r
    }

    /// Resolves a key press: the command-line chord works everywhere; other
    /// bindings apply only while no text input has focus; an unbound key, or
    /// any key during text input, passes through to the widget.
    pub fn resolve(&self, chord: KeyChord, text_focus: bool) -> (r: KeyResolution)
        ensures
            is_command_line_chord(chord) ==> r is OpenCommandLine,
            !is_command_line_chord(chord) && text_focus ==> r is PassThrough,
            !is_command_line_chord(chord) && !text_focus ==> match bound_to(self@, chord) {
                Some((name, args)) => r matches KeyResolution::Command(n, a) && n@ == name
                    && strings_view(a@) == args,
                None => r is PassThrough,
            },
    {
        if chord.key == ':' && !chord.ctrl && !chord.alt {
            return KeyResolution::OpenCommandLine;
        }
        if text_focus {
            return KeyResolution::PassThrough;
        }
        let mut i: usize = self.entries.len();
        assert(self@.take(i as int) =~= self@);
        while i > 0
            invariant
                i <= self@.len(),
                self@.len() == self.entries@.len(),
                bound_to(self@, chord) == bound_to(self@.take(i as int), chord),
                !is_command_line_chord(chord),
                !text_focus,
            decreases i,
        {
            let e = &self.entries[i - 1];
            assert(self@.take(i - 1) =~= self@.take(i as int).drop_last());
            if e.chord == chord {
                return KeyResolution::Command(e.command.clone(), copy_strings(&e.args));
            }
            i = i - 1;
        }
        KeyResolution::PassThrough
    }
}

/// The default bindings, in binding order.
pub open spec fn default_bindings() -> Seq<BindingView> {
    seq![
        (KeyChord { key: 'q', ctrl: false, alt: false }, "quit"@, Seq::empty()),
        (KeyChord { key: 'P', ctrl: false, alt: false }, "playpause"@, Seq::empty()),
        (KeyChord { key: 'S', ctrl: false, alt: false }, "stop"@, Seq::empty()),
        (KeyChord { key: '<', ctrl: false, alt: false }, "previous"@, Seq::empty()),
        (KeyChord { key: '>', ctrl: false, alt: false }, "next"@, Seq::empty()),
        (KeyChord { key: 'r', ctrl: false, alt: false }, "repeat"@, Seq::empty()),
        (KeyChord { key: 'z', ctrl: false, alt: false }, "shuffle"@, Seq::empty()),
    ]
}

} // verus!
