//! The screen buffer: a window of fixed height over the lines that were
//! written, which scrolls by dropping its oldest line.

use crate::tools::text::{is_blank, str_is_blank};
use std::collections::VecDeque;
use vstd::prelude::*;
use vstd::utf8::encode_utf8;

verus! {

broadcast use vstd::std_specs::vecdeque::group_vec_dequeue_axioms;

/// The length of `s` in bytes once it is encoded as UTF-8. Widths on the
/// screen are measured in these bytes.
pub open spec fn byte_len(s: Seq<char>) -> nat {
    encode_utf8(s).len()
}

/// The lines that are left when the blank lines at the end are dropped.
pub open spec fn drop_blank_tail(lines: Seq<Seq<char>>) -> Seq<Seq<char>>
    decreases lines.len(),
{
    if lines.len() > 0 && is_blank(lines.last()) {
        drop_blank_tail(lines.drop_last())
    } else {
        lines
    }
}

/// The lines in order, with one line feed between each two neighbours.
pub open spec fn join_lines(lines: Seq<Seq<char>>) -> Seq<char>
    decreases lines.len(),
{
    if lines.len() == 0 {
        Seq::empty()
    } else if lines.len() == 1 {
        lines[0]
    } else {
        join_lines(lines.drop_last()) + seq!['\n'] + lines.last()
    }
}

/// The views of the lines that a buffer holds.
pub open spec fn line_views(buffer: Seq<String>) -> Seq<Seq<char>> {
    buffer.map_values(|line: String| line@)
}

/// The lines after a scroll: the oldest line leaves, and an empty line
/// becomes the newest.
pub open spec fn scrolled(lines: Seq<Seq<char>>) -> Seq<Seq<char>> {
    let kept = if lines.len() > 0 {
        lines.drop_first()
    } else {
        lines
    };
    kept.push(Seq::empty())
}

/// The lines with `text` added to the end of the newest one.
pub open spec fn extended(lines: Seq<Seq<char>>, text: Seq<char>) -> Seq<Seq<char>> {
    if lines.len() == 0 {
        lines
    } else {
        lines.update(lines.len() - 1, lines.last() + text)
    }
}

/// `count` empty lines.
pub open spec fn blank_lines(count: nat) -> Seq<Seq<char>> {
    Seq::new(count, |i: int| Seq::<char>::empty())
}

/// What a screen is: its lines from oldest to newest, and the width and
/// height it was made with.
pub struct ScreenView {
    pub lines: Seq<Seq<char>>,
    pub width: nat,
    pub height: nat,
}

impl ScreenView {
    /// A fresh screen: `height` empty lines.
    pub open spec fn blank(width: nat, height: nat) -> ScreenView {
        ScreenView { lines: blank_lines(height), width, height }
    }

    /// The screen holds as many lines as its height says. A screen of height
    /// zero starts without a line and holds one after its first scroll.
    pub open spec fn well_formed(self) -> bool {
        if self.height == 0 {
            self.lines.len() <= 1
        } else {
            self.lines.len() == self.height
        }
    }

    /// The oldest line leaves, and an empty line becomes the newest.
    pub open spec fn scroll_up(self) -> ScreenView {
        ScreenView { lines: scrolled(self.lines), ..self }
    }

    /// `text` goes to the end of the newest line. Where the newest line and
    /// `text` together are wider than the screen, the screen scrolls first
    /// and `text` begins the new line. A screen without lines takes nothing.
    pub open spec fn write_text(self, text: Seq<char>) -> ScreenView {
        if self.lines.len() == 0 {
            self
        } else {
            let base = if byte_len(self.lines.last()) + byte_len(text) > self.width {
                self.scroll_up()
            } else {
                self
            };
            ScreenView { lines: extended(base.lines, text), ..base }
        }
    }

    /// The text on the screen: all lines but the blank ones at the end,
    /// joined by line feeds.
    pub open spec fn render(self) -> Seq<char> {
        join_lines(drop_blank_tail(self.lines))
    }
}

/// Drops the oldest line of `buffer` and opens an empty one at its end.
fn scroll_lines(buffer: &mut VecDeque<String>)
    ensures
        line_views(final(buffer)@) == scrolled(line_views(old(buffer)@)),
{
    let _ = buffer.pop_front();
    buffer.push_back(String::new());
}

/// Adds `text` to the end of the newest line of `buffer`.
fn extend_last_line(buffer: &mut VecDeque<String>, text: &str)
    ensures
        line_views(final(buffer)@) == extended(line_views(old(buffer)@), text@),
{
    match buffer.pop_back() {
        Some(mut line) => {
            line.append(text);
            buffer.push_back(line);
        },
        None => {},
    }
}

/// A scrolling text buffer of fixed width and height.
pub struct Screen {
    buffer: VecDeque<String>,
    width: usize,
    height: usize,
}

impl View for Screen {
    type V = ScreenView;

    closed spec fn view(&self) -> ScreenView {
        ScreenView {
            lines: line_views(self.buffer@),
            width: self.width as nat,
            height: self.height as nat,
        }
    }
}

impl Screen {
    /// A screen of `height` empty lines.
    pub fn new(width: usize, height: usize) -> (screen: Screen)
        ensures
            screen@ == ScreenView::blank(width as nat, height as nat),
            screen@.well_formed(),
    {
        let mut buffer: VecDeque<String> = VecDeque::new();
        let mut i: usize = 0;
        while i < height
            invariant
                i <= height,
                buffer@.len() == i,
                forall|j: int| 0 <= j < i ==> (#[trigger] buffer@[j])@ == Seq::<char>::empty(),
            decreases height - i,
        {
            buffer.push_back(String::new());
            i = i + 1;
        }
        let screen = Screen { buffer, width, height };
        assert(screen@.lines == ScreenView::blank(width as nat, height as nat).lines);
        screen
    }

    /// Drops the oldest line and opens an empty one at the end.
    pub fn scroll_up(&mut self)
        ensures
            final(self)@ == old(self)@.scroll_up(),
            old(self)@.well_formed() ==> final(self)@.well_formed(),
    {
        scroll_lines(&mut self.buffer);
    }

    /// Writes `text` at the end of the newest line, scrolling first where
    /// the line would become wider than the screen.
    pub fn write_text(&mut self, text: &str)
        ensures
            final(self)@ == old(self)@.write_text(text@),
            old(self)@.well_formed() ==> final(self)@.well_formed(),
    {
        let n: usize = self.buffer.len();
        if n == 0 {
            return;
        }
        let width: usize = self.width;
        let room: bool = {
            let line: &str = self.buffer[n - 1].as_str();
            let line_bytes: usize = line.as_bytes().len();
            let text_bytes: usize = text.as_bytes().len();
            text_bytes <= width && line_bytes <= width - text_bytes
        };
        if !room {
            self.scroll_up();
        }
        extend_last_line(&mut self.buffer, text);
    }

    /// The text on the screen, without the blank lines at its end.
    pub fn render(&self) -> (text: String)
        ensures
            text@ == self@.render(),
    {
        let n: usize = self.buffer.len();
        let mut keep: usize = n;
        assert(self@.lines.take(n as int) == self@.lines);
        while keep > 0 && str_is_blank(self.buffer[keep - 1].as_str())
            invariant
                n == self.buffer@.len(),
                keep <= n,
                drop_blank_tail(self@.lines) == drop_blank_tail(self@.lines.take(keep as int)),
            decreases keep,
        {
            assert(self@.lines.take(keep as int).drop_last() == self@.lines.take(keep - 1));
            keep = keep - 1;
        }
        let mut text = String::new();
        let mut i: usize = 0;
        while i < keep
            invariant
                n == self.buffer@.len(),
                i <= keep <= n,
                text@ == join_lines(self@.lines.take(i as int)),
            decreases keep - i,
        {
            if i > 0 {
                text.push('\n');
            }
            text.append(self.buffer[i].as_str());
            assert(self@.lines.take(i + 1).drop_last() == self@.lines.take(i as int));
            i = i + 1;
        }
        text
    }
}

} // verus!
