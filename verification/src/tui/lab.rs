//! The lab's panes and keys: what each key press changes and which outside
//! action it asks for. The program reads the keyboard, runs the processes the
//! actions name, and draws; every decision is made here.

use vstd::prelude::*;
use crate::parse::{trim, trimmed};
use crate::text::{contains_text, holds, owned, push_char, push_str};
use super::buffer::{
    Buffer, BufferView, buffer_ok, cleared, followed, page_of, pushed, scrolled_down, scrolled_up, toggled,
};
use super::capture::DumpFilter;

verus! {

/// The three panes.
#[derive(Clone, Copy, Debug, PartialEq, Eq, Structural)]
pub enum Pane {
    Stack,
    Dump,
    Actions,
}

/// The pane after `p` in Tab order.
pub open spec fn next_pane(p: Pane) -> Pane {
    match p {
        Pane::Stack => Pane::Dump,
        Pane::Dump => Pane::Actions,
        Pane::Actions => Pane::Stack,
    }
}

impl Pane {
    /// The pane after this one in Tab order.
    pub fn next(self) -> (r: Pane)
        ensures
            r == next_pane(self),
    {
        match self {
            Pane::Stack => Pane::Dump,
            Pane::Dump => Pane::Actions,
            Pane::Actions => Pane::Stack,
        }
    }
}

/// A key, as far as the lab tells keys apart.
#[derive(Clone, Copy, Debug, PartialEq, Eq, Structural)]
pub enum Key {
    Char(char),
    Tab,
    Enter,
    Esc,
    Backspace,
    Up,
    Down,
    PageUp,
    PageDown,
    End,
    Other,
}

/// A key event: the key, whether it is a press (not a release or repeat
/// report), and the modifiers held.
#[derive(Clone, Copy, Debug, PartialEq, Eq, Structural)]
pub struct KeyPress {
    pub key: Key,
    pub press: bool,
    pub ctrl: bool,
    pub alt: bool,
}

/// What the program should do after a key.
#[derive(Clone, Debug, PartialEq, Eq)]
pub enum LabAction {
    Nothing,
    Quit,
    /// Run a typed command in the actions pane.
    RunCommand(String),
    /// Ping MiniTCP once.
    Ping,
    /// Show Linux's neighbour table for the TAP.
    Neighbours,
    /// Flush Linux's neighbour table for the TAP.
    FlushNeighbours,
    RestartStack,
    /// Verbosity changed: restart the stack with it.
    ToggleVerbose,
    /// Restart the capture (with a new filter, after `d`).
    RestartDump,
}

/// The lab's state apart from its processes.
pub struct Lab {
    pub focus: Pane,
    pub filter: DumpFilter,
    /// The command being typed after `:`.
    pub command_input: Option<String>,
    pub verbose: bool,
    pub stack_buf: Buffer,
    pub dump_buf: Buffer,
    pub action_buf: Buffer,
}

/// A `Lab` with its text taken as character sequences.
#[verifier::ext_equal]
pub struct LabView {
    pub focus: Pane,
    pub filter: DumpFilter,
    pub command_input: Option<Seq<char>>,
    pub verbose: bool,
    pub stack: BufferView,
    pub dump: BufferView,
    pub actions: BufferView,
}

impl View for Lab {
    type V = LabView;

    open spec fn view(&self) -> LabView {
        LabView {
            focus: self.focus,
            filter: self.filter,
            command_input: match self.command_input {
                Some(s) => Some(s@),
                None => None,
            },
            verbose: self.verbose,
            stack: self.stack_buf@,
            dump: self.dump_buf@,
            actions: self.action_buf@,
        }
    }
}

/// What the program is asked to do, as a value of the spec.
pub enum ActionView {
    Nothing,
    Quit,
    RunCommand(Seq<char>),
    Ping,
    Neighbours,
    FlushNeighbours,
    RestartStack,
    ToggleVerbose,
    RestartDump,
}

/// An action as a value of the spec.
pub open spec fn action_view(a: LabAction) -> ActionView {
    match a {
        LabAction::Nothing => ActionView::Nothing,
        LabAction::Quit => ActionView::Quit,
        LabAction::RunCommand(c) => ActionView::RunCommand(c@),
        LabAction::Ping => ActionView::Ping,
        LabAction::Neighbours => ActionView::Neighbours,
        LabAction::FlushNeighbours => ActionView::FlushNeighbours,
        LabAction::RestartStack => ActionView::RestartStack,
        LabAction::ToggleVerbose => ActionView::ToggleVerbose,
        LabAction::RestartDump => ActionView::RestartDump,
    }
}

/// The lab with `f` applied to the focused pane's buffer.
pub open spec fn on_focused(l: LabView, f: spec_fn(BufferView) -> BufferView) -> LabView {
    match l.focus {
        Pane::Stack => LabView { stack: f(l.stack), ..l },
        Pane::Dump => LabView { dump: f(l.dump), ..l },
        Pane::Actions => LabView { actions: f(l.actions), ..l },
    }
}

/// The focused pane's buffer.
pub open spec fn focused(l: LabView) -> BufferView {
    match l.focus {
        Pane::Stack => l.stack,
        Pane::Dump => l.dump,
        Pane::Actions => l.actions,
    }
}

/// What a key does while a command is being typed: Esc abandons it, Enter
/// runs it, Backspace deletes a character, and a plain character is typed.
pub open spec fn typing_effect(l: LabView, input: Seq<char>, k: KeyPress) -> (LabView, ActionView) {
    match k.key {
        Key::Esc => (LabView { command_input: None, ..l }, ActionView::Nothing),
        Key::Enter => (LabView { command_input: None, ..l }, ActionView::RunCommand(input)),
        Key::Backspace => (
            LabView { command_input: Some(if input.len() > 0 { input.drop_last() } else { input }), ..l },
            ActionView::Nothing,
        ),
        Key::Char(c) => if !k.ctrl && !k.alt {
            (LabView { command_input: Some(input.push(c)), ..l }, ActionView::Nothing)
        } else {
            (l, ActionView::Nothing)
        },
        _ => (l, ActionView::Nothing),
    }
}

/// What a key does otherwise.
pub open spec fn command_effect(l: LabView, k: KeyPress) -> (LabView, ActionView) {
    match k.key {
        Key::Char('q') => (l, ActionView::Quit),
        Key::Tab => (LabView { focus: next_pane(l.focus), ..l }, ActionView::Nothing),
        Key::Char('1') => (LabView { focus: Pane::Stack, ..l }, ActionView::Nothing),
        Key::Char('2') => (LabView { focus: Pane::Dump, ..l }, ActionView::Nothing),
        Key::Char('3') => (LabView { focus: Pane::Actions, ..l }, ActionView::Nothing),
        Key::Char(':') => (LabView { focus: Pane::Actions, command_input: Some(Seq::empty()), ..l }, ActionView::Nothing),
        Key::Char('p') => (l, ActionView::Ping),
        Key::Char('n') => (l, ActionView::Neighbours),
        Key::Char('f') => (l, ActionView::FlushNeighbours),
        Key::Char('r') => (l, ActionView::RestartStack),
        Key::Char('v') => (LabView { verbose: !l.verbose, ..l }, ActionView::ToggleVerbose),
        Key::Char('t') => (l, ActionView::RestartDump),
        Key::Char('d') => (
            LabView {
                filter: match l.filter {
                    DumpFilter::All => DumpFilter::Arp,
                    DumpFilter::Arp => DumpFilter::Ip,
                    DumpFilter::Ip => DumpFilter::All,
                },
                ..l
            },
            ActionView::RestartDump,
        ),
        Key::Char('c') => (on_focused(l, |b: BufferView| cleared(b)), ActionView::Nothing),
        Key::Char('a') => (on_focused(l, |b: BufferView| toggled(b)), ActionView::Nothing),
        Key::Up => (on_focused(l, |b: BufferView| scrolled_up(b, 1)), ActionView::Nothing),
        Key::Down => (on_focused(l, |b: BufferView| scrolled_down(b, 1)), ActionView::Nothing),
        Key::PageUp => (on_focused(l, |b: BufferView| scrolled_up(b, page_of(b))), ActionView::Nothing),
        Key::PageDown => (on_focused(l, |b: BufferView| scrolled_down(b, page_of(b))), ActionView::Nothing),
        Key::End => (on_focused(l, |b: BufferView| followed(b)), ActionView::Nothing),
        _ => (l, ActionView::Nothing),
    }
}

/// What a key event does to the lab, and what it asks the program to do:
/// only presses count; Ctrl-C always quits; while a command is being typed
/// keys edit it; otherwise they move focus, scroll, or name an action.
pub open spec fn key_effect(l: LabView, k: KeyPress) -> (LabView, ActionView) {
    if !k.press {
        (l, ActionView::Nothing)
    } else if k.ctrl && k.key == Key::Char('c') {
        (l, ActionView::Quit)
    } else {
        match l.command_input {
            Some(input) => typing_effect(l, input, k),
            None => command_effect(l, k),
        }
    }
}

/// Every pane of the lab is a well-formed buffer.
pub open spec fn lab_ok(l: LabView) -> bool {
    buffer_ok(l.stack) && buffer_ok(l.dump) && buffer_ok(l.actions)
}

/// The line a pane announces a verbosity change with.
pub open spec fn verbose_note(verbose: bool) -> Seq<char> {
    if verbose {
        "\u{2014} verbose: headers decoded \u{2014}"@
    } else {
        "\u{2014} quiet: one line per exchange \u{2014}"@
    }
}

impl Lab {
    /// What holds of every lab.
    pub open spec fn ok(&self) -> bool {
        lab_ok(self@)
    }

    /// A lab with empty panes, focused on the stack.
    pub fn new(verbose: bool) -> (l: Self)
        ensures
            l.ok(),
            l@.focus == Pane::Stack,
            l@.filter == DumpFilter::All,
            l@.command_input is None,
            l@.verbose == verbose,
    {
        Lab {
            focus: Pane::Stack,
            filter: DumpFilter::All,
            command_input: None,
            verbose,
            stack_buf: Buffer::new(),
            dump_buf: Buffer::new(),
            action_buf: Buffer::new(),
        }
    }

    /// Adds a line of output to a pane; a pane nobody is looking at is
    /// brought back to its latest output first.
    pub fn push_pane(&mut self, pane: Pane, line: String)
        requires
            old(self).ok(),
        ensures
            final(self).ok(),
            final(self)@ == ({
                let l = old(self)@;
                let prep = |b: BufferView| if l.focus != pane { followed(b) } else { b };
                match pane {
                    Pane::Stack => LabView { stack: pushed(prep(l.stack), line@), ..l },
                    Pane::Dump => LabView { dump: pushed(prep(l.dump), line@), ..l },
                    Pane::Actions => LabView { actions: pushed(prep(l.actions), line@), ..l },
                }
            }),
    {
        let force_follow = self.focus != pane;
        match pane {
            Pane::Stack => self.stack_buf.push_output(line, force_follow),
            Pane::Dump => self.dump_buf.push_output(line, force_follow),
            Pane::Actions => self.action_buf.push_output(line, force_follow),
        }
        assert(self@ =~= ({
            let l = old(self)@;
            let prep = |b: BufferView| if l.focus != pane { followed(b) } else { b };
            match pane {
                Pane::Stack => LabView { stack: pushed(prep(l.stack), line@), ..l },
                Pane::Dump => LabView { dump: pushed(prep(l.dump), line@), ..l },
                Pane::Actions => LabView { actions: pushed(prep(l.actions), line@), ..l },
            }
        }));
    }

    /// The line announcing the current verbosity.
    pub fn verbose_line(&self) -> (s: String)
        ensures
            s@ == verbose_note(self.verbose),
    {
        if self.verbose {
            owned("\u{2014} verbose: headers decoded \u{2014}")
        } else {
            owned("\u{2014} quiet: one line per exchange \u{2014}")
        }
    }

    fn focused_scroll_up(&mut self, page: bool)
        requires
            old(self).ok(),
        ensures
            final(self).ok(),
            final(self)@ == on_focused(
                old(self)@,
                |b: BufferView| scrolled_up(b, if page { page_of(b) } else { 1 }),
            ),
    {
        match self.focus {
            Pane::Stack => {
                let n = if page { self.stack_buf.page_size() } else { 1 };
                self.stack_buf.scroll_up(n);
            },
            Pane::Dump => {
                let n = if page { self.dump_buf.page_size() } else { 1 };
                self.dump_buf.scroll_up(n);
            },
            Pane::Actions => {
                let n = if page { self.action_buf.page_size() } else { 1 };
                self.action_buf.scroll_up(n);
            },
        }
        assert(self@ =~= on_focused(
            old(self)@,
            |b: BufferView| scrolled_up(b, if page { page_of(b) } else { 1 }),
        ));
    }

    fn focused_scroll_down(&mut self, page: bool)
        requires
            old(self).ok(),
        ensures
            final(self).ok(),
            final(self)@ == on_focused(
                old(self)@,
                |b: BufferView| scrolled_down(b, if page { page_of(b) } else { 1 }),
            ),
    {
        match self.focus {
            Pane::Stack => {
                let n = if page { self.stack_buf.page_size() } else { 1 };
                self.stack_buf.scroll_down(n);
            },
            Pane::Dump => {
                let n = if page { self.dump_buf.page_size() } else { 1 };
                self.dump_buf.scroll_down(n);
            },
            Pane::Actions => {
                let n = if page { self.action_buf.page_size() } else { 1 };
                self.action_buf.scroll_down(n);
            },
        }
        assert(self@ =~= on_focused(
            old(self)@,
            |b: BufferView| scrolled_down(b, if page { page_of(b) } else { 1 }),
        ));
    }

    fn focused_clear(&mut self)
        requires
            old(self).ok(),
        ensures
            final(self).ok(),
            final(self)@ == on_focused(old(self)@, |b: BufferView| cleared(b)),
    {
        match self.focus {
            Pane::Stack => self.stack_buf.clear(),
            Pane::Dump => self.dump_buf.clear(),
            Pane::Actions => self.action_buf.clear(),
        }
        assert(self@ =~= on_focused(old(self)@, |b: BufferView| cleared(b)));
    }

    fn focused_toggle(&mut self)
        requires
            old(self).ok(),
        ensures
            final(self).ok(),
            final(self)@ == on_focused(old(self)@, |b: BufferView| toggled(b)),
    {
        match self.focus {
            Pane::Stack => self.stack_buf.toggle_follow(),
            Pane::Dump => self.dump_buf.toggle_follow(),
            Pane::Actions => self.action_buf.toggle_follow(),
        }
        assert(self@ =~= on_focused(old(self)@, |b: BufferView| toggled(b)));
    }

    fn focused_follow(&mut self)
        requires
            old(self).ok(),
        ensures
            final(self).ok(),
            final(self)@ == on_focused(old(self)@, |b: BufferView| followed(b)),
    {
        match self.focus {
            Pane::Stack => self.stack_buf.follow(),
            Pane::Dump => self.dump_buf.follow(),
            Pane::Actions => self.action_buf.follow(),
        }
        assert(self@ =~= on_focused(old(self)@, |b: BufferView| followed(b)));
    }

    /// Handles one key event: changes the lab and says what the program
    /// should do.
    pub fn handle_key(&mut self, k: KeyPress) -> (a: LabAction)
        requires
            old(self).ok(),
        ensures
            final(self).ok(),
            (final(self)@, action_view(a)) == key_effect(old(self)@, k),
    {
        if !k.press {
            return LabAction::Nothing;
        }
        if k.ctrl && k.key == Key::Char('c') {
            return LabAction::Quit;
        }
        if self.command_input.is_some() {
            let mut input = match self.command_input.take() {
                Some(s) => s,
                None => String::new(),
            };
            let ghost typed = input@;
            match k.key {
                Key::Esc => {
                    assert(self@ =~= typing_effect(old(self)@, typed, k).0);
                    return LabAction::Nothing;
                },
                Key::Enter => {
                    assert(self@ =~= typing_effect(old(self)@, typed, k).0);
                    return LabAction::RunCommand(input);
                },
                Key::Backspace => {
                    let cs = crate::text::chars_of(input.as_str());
                    let n = cs.len();
                    let kept = if n > 0 { crate::text::string_between(&cs, 0, n - 1) } else { input };
                    self.command_input = Some(kept);
                    assert(self@ =~= typing_effect(old(self)@, typed, k).0);
                    return LabAction::Nothing;
                },
                Key::Char(c) => {
                    if !k.ctrl && !k.alt {
                        push_char(&mut input, c);
                    }
                    self.command_input = Some(input);
                    assert(self@ =~= typing_effect(old(self)@, typed, k).0);
                    return LabAction::Nothing;
                },
                _ => {
                    self.command_input = Some(input);
                    assert(self@ =~= typing_effect(old(self)@, typed, k).0);
                    return LabAction::Nothing;
                },
            }
        }
        match k.key {
            Key::Char('q') => LabAction::Quit,
            Key::Tab => {
                self.focus = self.focus.next();
                LabAction::Nothing
            },
            Key::Char('1') => {
                self.focus = Pane::Stack;
                LabAction::Nothing
            },
            Key::Char('2') => {
                self.focus = Pane::Dump;
                LabAction::Nothing
            },
            Key::Char('3') => {
                self.focus = Pane::Actions;
                LabAction::Nothing
            },
            Key::Char(':') => {
                self.focus = Pane::Actions;
                self.command_input = Some(String::new());
                assert(self@ =~= command_effect(old(self)@, k).0);
                LabAction::Nothing
            },
            Key::Char('p') => LabAction::Ping,
            Key::Char('n') => LabAction::Neighbours,
            Key::Char('f') => LabAction::FlushNeighbours,
            Key::Char('r') => LabAction::RestartStack,
            Key::Char('v') => {
                self.verbose = !self.verbose;
                LabAction::ToggleVerbose
            },
            Key::Char('t') => LabAction::RestartDump,
            Key::Char('d') => {
                self.filter = self.filter.next();
                LabAction::RestartDump
            },
            Key::Char('c') => {
                self.focused_clear();
                LabAction::Nothing
            },
            Key::Char('a') => {
                self.focused_toggle();
                LabAction::Nothing
            },
            Key::Up => {
                self.focused_scroll_up(false);
                LabAction::Nothing
            },
            Key::Down => {
                self.focused_scroll_down(false);
                LabAction::Nothing
            },
            Key::PageUp => {
                self.focused_scroll_up(true);
                LabAction::Nothing
            },
            Key::PageDown => {
                self.focused_scroll_down(true);
                LabAction::Nothing
            },
            Key::End => {
                self.focused_follow();
                LabAction::Nothing
            },
            _ => LabAction::Nothing,
        }
    }

    /// Starts a typed command: nothing for a blank one; a notice when one is
    /// still running; otherwise the actions pane takes focus, follows, and
    /// shows the prompt line, and the trimmed command is returned to run.
    pub fn begin_command(&mut self, command: &str, busy: bool) -> (r: Option<String>)
        requires
            old(self).ok(),
        ensures
            final(self).ok(),
            trimmed(command@).len() == 0 ==> r is None && final(self)@ == old(self)@,
            trimmed(command@).len() > 0 && busy ==> r is None && final(self)@ == (LabView {
                actions: pushed(old(self)@.actions, "a command is already running; wait for it to finish"@),
                ..old(self)@
            }),
            trimmed(command@).len() > 0 && !busy ==> (r matches Some(c) && c@ == trimmed(command@)),
            trimmed(command@).len() > 0 && !busy ==> final(self)@ == (LabView {
                focus: Pane::Actions,
                actions: pushed(followed(old(self)@.actions), "$ "@ + trimmed(command@)),
                ..old(self)@
            }),
    {
        let c = trim(command);
        if c.as_str().is_empty() {
            return None;
        }
        if busy {
            self.action_buf.push(owned("a command is already running; wait for it to finish"));
            assert(self@ =~= (LabView {
                actions: pushed(old(self)@.actions, "a command is already running; wait for it to finish"@),
                ..old(self)@
            }));
            return None;
        }
        self.focus = Pane::Actions;
        self.action_buf.follow();
        let mut prompt = owned("$ ");
        push_str(&mut prompt, c.as_str());
        self.action_buf.push(prompt);
        assert(self@ =~= (LabView {
            focus: Pane::Actions,
            actions: pushed(followed(old(self)@.actions), "$ "@ + trimmed(command@)),
            ..old(self)@
        }));
        Some(c)
    }
}

/// Counts of what the stack pane has shown: pings in and out, ARP in and
/// out.
#[derive(Clone, Copy, Debug, PartialEq, Eq, Structural)]
pub struct Counters {
    pub icmp_in: u32,
    pub icmp_out: u32,
    pub arp_in: u32,
    pub arp_out: u32,
}

/// One more, wrapping at the top as a release build's `+=` does.
pub open spec fn bump(n: u32) -> u32 {
    if n == u32::MAX {
        0
    } else {
        (n + 1) as u32
    }
}

/// `n` bumped when `yes`.
pub open spec fn bump_if(n: u32, yes: bool) -> u32 {
    if yes {
        bump(n)
    } else {
        n
    }
}

/// The counts after one line of stack output: a quiet echo line is one ping
/// each way; otherwise a request (`type=8 `) counts in, a reply (`type=0 `)
/// out, a `who-has` in (and out as well when it is a quiet line, with no
/// `[`), and an `is-at` out.
pub open spec fn counted(c: Counters, line: Seq<char>) -> Counters {
    if holds(line, "echo id="@) {
        Counters { icmp_in: bump(c.icmp_in), icmp_out: bump(c.icmp_out), ..c }
    } else {
        let who = holds(line, "who-has"@);
        Counters {
            icmp_in: bump_if(c.icmp_in, holds(line, "type=8 "@)),
            icmp_out: bump_if(c.icmp_out, holds(line, "type=0 "@)),
            arp_in: bump_if(c.arp_in, who),
            arp_out: bump_if(
                bump_if(c.arp_out, who && !holds(line, "["@)),
                holds(line, "is-at"@),
            ),
        }
    }
}

fn bumped(n: u32) -> (r: u32)
    ensures
        r == bump(n),
{
    if n == u32::MAX {
        0
    } else {
        n + 1
    }
}

impl Counters {
    /// All zero.
    pub fn new() -> (c: Self)
        ensures
            c == (Counters { icmp_in: 0, icmp_out: 0, arp_in: 0, arp_out: 0 }),
    {
        Counters { icmp_in: 0, icmp_out: 0, arp_in: 0, arp_out: 0 }
    }

    /// Counts one line of stack output.
    pub fn count_stack_line(&mut self, line: &str)
        ensures
            *final(self) == counted(*old(self), line@),
    {
        if contains_text(line, "echo id=") {
            self.icmp_in = bumped(self.icmp_in);
            self.icmp_out = bumped(self.icmp_out);
            return;
        }
        if contains_text(line, "type=8 ") {
            self.icmp_in = bumped(self.icmp_in);
        }
        if contains_text(line, "type=0 ") {
            self.icmp_out = bumped(self.icmp_out);
        }
        let who = contains_text(line, "who-has");
        if who {
            self.arp_in = bumped(self.arp_in);
            if !contains_text(line, "[") {
                self.arp_out = bumped(self.arp_out);
            }
        }
        if contains_text(line, "is-at") {
            self.arp_out = bumped(self.arp_out);
        }
    }
}

/// Keys never break a pane: whatever is pressed, every buffer stays capped,
/// and following still means looking at the bottom.
pub proof fn lemma_keys_keep_panes_ok(l: LabView, k: KeyPress)
    requires
        lab_ok(l),
    ensures
        lab_ok(key_effect(l, k).0),
{
    let f = focused(l);
    assert(buffer_ok(cleared(f)));
    assert(buffer_ok(followed(f)));
    assert(buffer_ok(toggled(f)));
    assert(buffer_ok(scrolled_up(f, 1)));
    assert(buffer_ok(scrolled_down(f, 1)));
    assert(buffer_ok(scrolled_up(f, page_of(f))));
    assert(buffer_ok(scrolled_down(f, page_of(f))));
}

/// Typing never reaches the lab's controls: while a command is being typed,
/// a plain key (not Ctrl-C, Enter or Esc) changes only the command line.
pub proof fn lemma_typing_is_contained(l: LabView, k: KeyPress)
    requires
        l.command_input is Some,
        k.press,
        !(k.ctrl && k.key == Key::Char('c')),
        k.key != Key::Enter,
        k.key != Key::Esc,
    ensures
        key_effect(l, k).1 == ActionView::Nothing,
        key_effect(l, k).0.focus == l.focus,
        key_effect(l, k).0.stack == l.stack,
        key_effect(l, k).0.dump == l.dump,
        key_effect(l, k).0.actions == l.actions,
        key_effect(l, k).0.command_input is Some,
{
}

/// The quick command behind `p`, `n` or `f`: run inside the sidecar when
/// the TAP lives there, else here (flushing needs root here).
pub open spec fn quick_command_spec(a: ActionView, sidecar: bool, addr: Seq<char>, iface: Seq<char>) -> Option<(Seq<char>, Seq<Seq<char>>)> {
    let (program, args): (Seq<char>, Seq<Seq<char>>) = match a {
        ActionView::Ping => ("ping"@, seq!["-c"@, "1"@, "-W"@, "1"@, addr]),
        ActionView::Neighbours => ("ip"@, seq!["neigh"@, "show"@, "dev"@, iface]),
        ActionView::FlushNeighbours => if sidecar {
            ("ip"@, seq!["neigh"@, "flush"@, "dev"@, iface])
        } else {
            ("sudo"@, seq!["-n"@, "ip"@, "neigh"@, "flush"@, "dev"@, iface])
        },
        _ => (Seq::empty(), Seq::empty()),
    };
    match a {
        ActionView::Ping | ActionView::Neighbours | ActionView::FlushNeighbours => if sidecar {
            Some(("docker"@, seq!["exec"@, crate::sys::docker::CONTAINER@, program] + args))
        } else {
            Some((program, args))
        },
        _ => None,
    }
}

fn texts_pushed(v: &mut Vec<String>, items: &[&str])
    ensures
        final(v).deep_view() == old(v).deep_view() + Seq::new(items@.len(), |i: int| items@[i]@),
{
    let ghost start = v.deep_view();
    let mut i: usize = 0;
    while i < items.len()
        invariant
            i <= items@.len(),
            v.deep_view() == start + Seq::new(i as nat, |k: int| items@[k]@),
        decreases items@.len() - i,
    {
        let ghost before = v.deep_view();
        v.push(owned(items[i]));
        assert(v.deep_view() =~= before.push(items@[i as int]@));
        i = i + 1;
        assert(v.deep_view() =~= start + Seq::new(i as nat, |k: int| items@[k]@));
    }
}

/// The program and arguments of the quick command an action names, if it
/// names one.
pub fn quick_command(a: &LabAction, sidecar: bool, addr: &str, iface: &str) -> (r: Option<(&'static str, Vec<String>)>)
    ensures
        match quick_command_spec(action_view(*a), sidecar, addr@, iface@) {
            Some((p, v)) => r matches Some(x) && x.0@ == p && x.1.deep_view() == v,
            None => r is None,
        },
{
    let mut v: Vec<String> = Vec::new();
    let program: &'static str = match a {
        LabAction::Ping => {
            texts_pushed(&mut v, &["-c", "1", "-W", "1", addr]);
            "ping"
        },
        LabAction::Neighbours => {
            texts_pushed(&mut v, &["neigh", "show", "dev", iface]);
            "ip"
        },
        LabAction::FlushNeighbours => if sidecar {
            texts_pushed(&mut v, &["neigh", "flush", "dev", iface]);
            "ip"
        } else {
            texts_pushed(&mut v, &["-n", "ip", "neigh", "flush", "dev", iface]);
            "sudo"
        },
        _ => return None,
    };
    if !sidecar {
        return Some((program, v));
    }
    let mut full: Vec<String> = Vec::new();
    texts_pushed(&mut full, &["exec", crate::sys::docker::CONTAINER, program]);
    let ghost head = full.deep_view();
    let mut i: usize = 0;
    while i < v.len()
        invariant
            i <= v@.len(),
            full.deep_view() == head + v.deep_view().subrange(0, i as int),
        decreases v@.len() - i,
    {
        let ghost before = full.deep_view();
        full.push(v[i].clone());
        assert(full.deep_view() =~= before.push(v.deep_view()[i as int]));
        i = i + 1;
        assert(full.deep_view() =~= head + v.deep_view().subrange(0, i as int));
    }
    assert(v.deep_view().subrange(0, v@.len() as int) =~= v.deep_view());
    Some(("docker", full))
}

} // verus!
