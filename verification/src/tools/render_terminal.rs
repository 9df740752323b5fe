//! Normalises raw terminal output: the bytes go through an escape-sequence
//! parser, what the parser prints lands on a scrolling screen, and the
//! screen is rendered as plain text.

use crate::tools::screen::{Screen, ScreenView};
use crate::tools::text::{trim_start, trimmed_start};
use vstd::prelude::*;
use vstd::std_specs::iter::IteratorSpec;
use vstd::utf8::encode_utf8;

verus! {

broadcast use vstd::string::group_string_axioms;

/// The width of the screen on which output is normalised.
pub const SCREEN_WIDTH: usize = 160;

/// The height of the screen on which output is normalised.
pub const SCREEN_HEIGHT: usize = 500;

/// What the escape-sequence parser asks of a terminal that the screen
/// listens to. Everything else that the parser recognises (escape, control
/// and operating-system sequences) is consumed without an event.
#[derive(Clone, Copy, Debug, PartialEq, Eq, Structural)]
pub enum TermEvent {
    /// A character to draw.
    Print(char),
    /// A C0 or C1 control byte to execute.
    Execute(u8),
}

/// A performer that records the events of a parser in the order in which
/// they arrive.
pub struct EventLog {
    pub events: Vec<TermEvent>,
}

impl vte::Perform for EventLog {
    fn print(&mut self, c: char)
        ensures
            final(self).events@ == old(self).events@.push(TermEvent::Print(c)),
    {
        self.events.push(TermEvent::Print(c));
    }

    fn execute(&mut self, byte: u8)
        ensures
            final(self).events@ == old(self).events@.push(TermEvent::Execute(byte)),
    {
        self.events.push(TermEvent::Execute(byte));
    }
}

/// The print and execute requests that a fresh `vte::Parser` makes, in
/// order, while it advances over `bytes` one byte at a time.
pub uninterp spec fn vte_dispatch(bytes: Seq<u8>) -> Seq<TermEvent>;

/// Runs a fresh `vte::Parser` over `bytes` with `vte::Parser::advance` and
/// returns the `print` and `execute` calls that it made on its performer.
/// The parser keeps no state between two runs and reads nothing but the
/// bytes, so the events are a function of the bytes; which events they are
/// is left to the parser.
#[verifier::external_body]
fn dispatch(bytes: &[u8]) -> (events: Vec<TermEvent>)
    ensures
        events@ == vte_dispatch(bytes@),
{
    let mut parser = vte::Parser::new();
    let mut log = EventLog { events: Vec::new() };
    for byte in bytes {
        parser.advance(&mut log, *byte);
    }
    log.events
}

/// The screen after one event. A printed character is written as text, a
/// line feed scrolls, and every other control byte leaves the screen alone.
pub open spec fn performed(screen: ScreenView, event: TermEvent) -> ScreenView {
    match event {
        TermEvent::Print(c) => screen.write_text(seq![c]),
        TermEvent::Execute(byte) => if byte == 0x0A {
            screen.scroll_up()
        } else {
            screen
        },
    }
}

/// The screen after a sequence of events, performed in order.
pub open spec fn performed_all(screen: ScreenView, events: Seq<TermEvent>) -> ScreenView
    decreases events.len(),
{
    if events.len() == 0 {
        screen
    } else {
        performed(performed_all(screen, events.drop_last()), events.last())
    }
}

/// `text` with four spaces in place of each horizontal tab.
pub open spec fn tabs_expanded(text: Seq<char>) -> Seq<char>
    decreases text.len(),
{
    if text.len() == 0 {
        Seq::empty()
    } else if text.last() == '\t' {
        tabs_expanded(text.drop_last()) + seq![' ', ' ', ' ', ' ']
    } else {
        tabs_expanded(text.drop_last()).push(text.last())
    }
}

/// What is left of a sequence of events on a fresh screen of the standard
/// size: the rendered screen without its leading whitespace.
pub open spec fn events_rendered(events: Seq<TermEvent>) -> Seq<char> {
    trimmed_start(
        performed_all(
            ScreenView::blank(SCREEN_WIDTH as nat, SCREEN_HEIGHT as nat),
            events,
        ).render(),
    )
}

/// The normal form of raw terminal output: tabs become spaces, the bytes of
/// the text pass through the escape-sequence parser, and the events that
/// come out are rendered.
pub open spec fn normalized(text: Seq<char>) -> Seq<char> {
    events_rendered(vte_dispatch(encode_utf8(tabs_expanded(text))))
}

/// A terminal that keeps nothing but a scrolling screen of text.
pub struct TerminalEmulator {
    screen: Screen,
}

impl View for TerminalEmulator {
    type V = ScreenView;

    closed spec fn view(&self) -> ScreenView {
        self.screen@
    }
}

impl TerminalEmulator {
    /// A terminal with an empty screen.
    pub fn new(width: usize, height: usize) -> (emulator: TerminalEmulator)
        ensures
            emulator@ == ScreenView::blank(width as nat, height as nat),
            emulator@.well_formed(),
    {
        TerminalEmulator { screen: Screen::new(width, height) }
    }

    /// Draws `c` at the end of the newest line.
    pub fn print(&mut self, c: char)
        ensures
            final(self)@ == performed(old(self)@, TermEvent::Print(c)),
            old(self)@.well_formed() ==> final(self)@.well_formed(),
    {
        let mut text = String::new();
        text.push(c);
        self.screen.write_text(text.as_str());
    }

    /// Executes a control byte: a line feed scrolls, any other byte does
    /// nothing.
    pub fn execute(&mut self, byte: u8)
        ensures
            final(self)@ == performed(old(self)@, TermEvent::Execute(byte)),
            old(self)@.well_formed() ==> final(self)@.well_formed(),
    {
        if byte == 0x0A {
            self.screen.scroll_up();
        }
    }

    /// Performs `events` in order.
    pub fn perform(&mut self, events: &Vec<TermEvent>)
        ensures
            final(self)@ == performed_all(old(self)@, events@),
            old(self)@.well_formed() ==> final(self)@.well_formed(),
    {
        let mut i: usize = 0;
        while i < events.len()
            invariant
                i <= events.len(),
                self@ == performed_all(old(self)@, events@.take(i as int)),
                old(self)@.well_formed() ==> self@.well_formed(),
            decreases events.len() - i,
        {
            assert(events@.take(i + 1).drop_last() == events@.take(i as int));
            match events[i] {
                TermEvent::Print(c) => self.print(c),
                TermEvent::Execute(byte) => self.execute(byte),
            }
            i = i + 1;
        }
        assert(events@.take(i as int) == events@);
    }

    /// Feeds the bytes of `text` through the escape-sequence parser and
    /// performs the events that come out.
    pub fn feed(&mut self, text: &str)
        ensures
            final(self)@ == performed_all(old(self)@, vte_dispatch(encode_utf8(text@))),
            old(self)@.well_formed() ==> final(self)@.well_formed(),
    {
        let events = dispatch(text.as_bytes());
        self.perform(&events);
    }

    /// The text on the screen, without the blank lines at its end.
    pub fn render(&self) -> (text: String)
        ensures
            text@ == self@.render(),
    {
        self.screen.render()
    }
}

/// Replaces each horizontal tab of `text` by four spaces.
pub fn expand_tabs(text: &str) -> (expanded: String)
    ensures
        expanded@ == tabs_expanded(text@),
{
    let n: usize = text.unicode_len();
    let mut it = text.chars();
    let mut expanded = String::new();
    let mut i: usize = 0;
    loop
        invariant
            n == text@.len(),
            i <= n,
            it.remaining() == text@.skip(i as int),
            expanded@ == tabs_expanded(text@.take(i as int)),
        decreases n - i,
    {
        match it.next() {
            Some(c) => {
                assert(text@.take(i + 1).drop_last() == text@.take(i as int));
                if c == '\t' {
                    expanded.push(' ');
                    expanded.push(' ');
                    expanded.push(' ');
                    expanded.push(' ');
                } else {
                    expanded.push(c);
                }
                i = i + 1;
            },
            None => {
                assert(text@.take(i as int) == text@);
                return expanded;
            },
        }
    }
}

/// Renders `events` on a fresh screen of the standard size and drops the
/// leading whitespace of what the screen shows.
pub fn render_events(events: &Vec<TermEvent>) -> (output: String)
    ensures
        output@ == events_rendered(events@),
{
    let mut emulator = TerminalEmulator::new(SCREEN_WIDTH, SCREEN_HEIGHT);
    emulator.perform(events);
    let shown = emulator.render();
    trim_start(shown.as_str()).to_owned()
}

/// Turns raw terminal output into plain text: control and escape sequences
/// are gone, long output is cut to the newest lines that fit the screen, and
/// no whitespace stands before the first visible character.
pub fn render_terminal_output(text: String) -> (output: String)
    ensures
        output@ == normalized(text@),
{
    let text = expand_tabs(text.as_str());
    let events = dispatch(text.as_str().as_bytes());
    render_events(&events)
}

/// No tab is left in text whose tabs were expanded.
pub proof fn lemma_tabs_expanded_has_no_tab(text: Seq<char>)
    ensures
        !tabs_expanded(text).contains('\t'),
    decreases text.len(),
{
    if text.len() > 0 {
        lemma_tabs_expanded_has_no_tab(text.drop_last());
        let before = tabs_expanded(text.drop_last());
        let all = tabs_expanded(text);
        if all.contains('\t') {
            let i = choose|i: int| 0 <= i < all.len() && all[i] == '\t';
            if i < before.len() {
            }
        }
    }
}

} // verus!
