//! Laws of the normaliser: text that is already clean comes out of the
//! screen as it went in.

use crate::tools::render_terminal::{
    events_rendered, normalized, performed, performed_all, tabs_expanded, vte_dispatch, TermEvent,
    SCREEN_HEIGHT, SCREEN_WIDTH,
};
use crate::tools::screen::{
    blank_lines, byte_len, drop_blank_tail, extended, join_lines, ScreenView,
};
use crate::tools::text::{
    is_blank, is_whitespace, leading_whitespace, lemma_leading_whitespace,
    lemma_leading_whitespace_is_prefix, trimmed_start,
};
use vstd::prelude::*;
use vstd::utf8::encode_utf8;

verus! {

/// The event of one character of text without escape sequences: a line
/// feed is executed, every other character is printed.
pub open spec fn plain_event(c: char) -> TermEvent {
    if c == '\n' {
        TermEvent::Execute(0x0A)
    } else {
        TermEvent::Print(c)
    }
}

/// The events of text without escape sequences, one for each character.
pub open spec fn plain_events(text: Seq<char>) -> Seq<TermEvent>
    decreases text.len(),
{
    if text.len() == 0 {
        Seq::empty()
    } else {
        plain_events(text.drop_last()).push(plain_event(text.last()))
    }
}

/// Lines fit a screen when none holds a line feed and none is wider than
/// the screen.
pub open spec fn lines_fit(lines: Seq<Seq<char>>, width: nat) -> bool {
    forall|i: int|
        0 <= i < lines.len() ==> !(#[trigger] lines[i]).contains('\n') && byte_len(lines[i])
            <= width
}

/// `count` line feeds.
pub open spec fn line_feeds(count: nat) -> Seq<char> {
    Seq::new(count, |i: int| '\n')
}

/// The bytes of two texts in a row are the bytes of the first and the bytes
/// of the second.
pub proof fn lemma_byte_len_add(a: Seq<char>, b: Seq<char>)
    ensures
        byte_len(a + b) == byte_len(a) + byte_len(b),
    decreases a.len(),
{
    if a.len() == 0 {
        assert(a + b == b);
    } else {
        assert((a + b).drop_first() == a.drop_first() + b);
        lemma_byte_len_add(a.drop_first(), b);
    }
}

/// Performing two runs of events in a row is performing the first run and
/// then the second.
pub proof fn lemma_performed_all_add(
    screen: ScreenView,
    first: Seq<TermEvent>,
    then: Seq<TermEvent>,
)
    ensures
        performed_all(screen, first + then) == performed_all(
            performed_all(screen, first),
            then,
        ),
    decreases then.len(),
{
    if then.len() == 0 {
        assert(first + then == first);
    } else {
        assert((first + then).drop_last() == first + then.drop_last());
        lemma_performed_all_add(screen, first, then.drop_last());
    }
}

/// The events of two texts in a row are the events of the first and then
/// the events of the second.
pub proof fn lemma_plain_events_add(a: Seq<char>, b: Seq<char>)
    ensures
        plain_events(a + b) == plain_events(a) + plain_events(b),
    decreases b.len(),
{
    if b.len() == 0 {
        assert(a + b == a);
    } else {
        assert((a + b).drop_last() == a + b.drop_last());
        lemma_plain_events_add(a, b.drop_last());
    }
}

/// A line without line feeds that still fits on the newest line of the
/// screen is printed onto that line.
proof fn lemma_print_line(screen: ScreenView, line: Seq<char>)
    requires
        screen.lines.len() > 0,
        !line.contains('\n'),
        byte_len(screen.lines.last()) + byte_len(line) <= screen.width,
    ensures
        performed_all(screen, plain_events(line)) == (ScreenView {
            lines: extended(screen.lines, line),
            ..screen
        }),
    decreases line.len(),
{
    if line.len() == 0 {
        assert(extended(screen.lines, line) == screen.lines);
    } else {
        let head = line.drop_last();
        let c = line.last();
        assert(!head.contains('\n')) by {
            assert forall|i: int| 0 <= i < head.len() implies head[i] != '\n' by {
                assert(head[i] == line[i]);
            }
        }
        assert(plain_events(line).drop_last() == plain_events(head));
        assert(head + seq![c] == line);
        lemma_byte_len_add(head, seq![c]);
        lemma_print_line(screen, head);
        let newest = screen.lines.last();
        let mid = ScreenView { lines: extended(screen.lines, head), ..screen };
        lemma_byte_len_add(newest, head);
        assert((newest + head) + seq![c] == newest + line);
        assert(extended(mid.lines, seq![c]) == extended(screen.lines, line));
        assert(performed(mid, TermEvent::Print(c)) == (ScreenView {
            lines: extended(screen.lines, line),
            ..screen
        }));
    }
}

/// Lines that fit the screen, replayed on a fresh screen that is high
/// enough, stand at the end of the screen, below empty lines.
proof fn lemma_replay_lines(lines: Seq<Seq<char>>, width: nat, height: nat)
    requires
        0 < lines.len() <= height,
        lines_fit(lines, width),
    ensures
        performed_all(ScreenView::blank(width, height), plain_events(join_lines(lines)))
            == (ScreenView {
            lines: blank_lines((height - lines.len()) as nat) + lines,
            width,
            height,
        }),
    decreases lines.len(),
{
    let fresh = ScreenView::blank(width, height);
    let newest = lines.last();
    if lines.len() == 1 {
        lemma_print_line(fresh, newest);
        assert(extended(fresh.lines, newest) == blank_lines((height - 1) as nat) + lines);
    } else {
        let rest = lines.drop_last();
        assert(lines_fit(rest, width)) by {
            assert forall|i: int| 0 <= i < rest.len() implies !(#[trigger] rest[i]).contains('\n')
                && byte_len(rest[i]) <= width by {
                assert(rest[i] == lines[i]);
            }
        }
        lemma_replay_lines(rest, width, height);
        let feed = seq![TermEvent::Execute(0x0A)];
        let before = plain_events(join_lines(rest));
        assert(plain_events(seq!['\n']) == feed) by {
            reveal_with_fuel(plain_events, 2);
        }
        lemma_plain_events_add(join_lines(rest) + seq!['\n'], newest);
        lemma_plain_events_add(join_lines(rest), seq!['\n']);
        lemma_performed_all_add(fresh, before + feed, plain_events(newest));
        lemma_performed_all_add(fresh, before, feed);
        let above = ScreenView {
            lines: blank_lines((height - rest.len()) as nat) + rest,
            width,
            height,
        };
        assert(performed_all(above, feed) == performed(above, TermEvent::Execute(0x0A))) by {
            reveal_with_fuel(performed_all, 2);
        }
        let opened = above.scroll_up();
        assert(opened.lines == blank_lines((height - lines.len()) as nat) + rest + seq![
            Seq::<char>::empty(),
        ]);
        lemma_print_line(opened, newest);
        assert(extended(opened.lines, newest) == blank_lines((height - lines.len()) as nat)
            + lines);
    }
}

/// Empty lines are joined to one line feed fewer than there are lines.
proof fn lemma_join_blank_lines(count: nat)
    requires
        count > 0,
    ensures
        join_lines(blank_lines(count)) == line_feeds((count - 1) as nat),
    decreases count,
{
    if count > 1 {
        assert(blank_lines(count).drop_last() == blank_lines((count - 1) as nat));
        lemma_join_blank_lines((count - 1) as nat);
        assert(line_feeds((count - 2) as nat) + seq!['\n'] + Seq::<char>::empty() == line_feeds(
            (count - 1) as nat,
        ));
    }
}

/// Empty lines above text are joined to as many line feeds before the text.
proof fn lemma_join_below_blank_lines(count: nat, lines: Seq<Seq<char>>)
    requires
        lines.len() > 0,
    ensures
        join_lines(blank_lines(count) + lines) == line_feeds(count) + join_lines(lines),
    decreases lines.len(),
{
    let all = blank_lines(count) + lines;
    if lines.len() == 1 {
        if count > 0 {
            assert(all.drop_last() == blank_lines(count));
            lemma_join_blank_lines(count);
        }
    } else {
        assert(all.drop_last() == blank_lines(count) + lines.drop_last());
        lemma_join_below_blank_lines(count, lines.drop_last());
        assert((line_feeds(count) + join_lines(lines.drop_last())) + seq!['\n'] + lines.last()
            == line_feeds(count) + (join_lines(lines.drop_last()) + seq!['\n'] + lines.last()));
    }
}

/// Joined lines begin with the first line.
proof fn lemma_join_begins_with_first(lines: Seq<Seq<char>>)
    requires
        lines.len() > 0,
    ensures
        join_lines(lines).len() >= lines[0].len(),
        forall|i: int| 0 <= i < lines[0].len() ==> join_lines(lines)[i] == lines[0][i],
    decreases lines.len(),
{
    if lines.len() > 1 {
        lemma_join_begins_with_first(lines.drop_last());
    }
}

/// Clean text comes back from the screen as it went in. Text is clean for a
/// screen when its lines fit the screen and are no more than the screen is
/// high, its last line is not blank, and its first character is visible.
/// Replayed on a fresh screen, rendered, and trimmed at the front, it is
/// the same text again.
pub proof fn lemma_clean_text_replays(lines: Seq<Seq<char>>, width: nat, height: nat)
    requires
        0 < lines.len() <= height,
        lines_fit(lines, width),
        !is_blank(lines.last()),
        lines[0].len() > 0,
        !is_whitespace(lines[0][0]),
    ensures
        trimmed_start(
            performed_all(
                ScreenView::blank(width, height),
                plain_events(join_lines(lines)),
            ).render(),
        ) == join_lines(lines),
{
    let above = (height - lines.len()) as nat;
    lemma_replay_lines(lines, width, height);
    lemma_join_below_blank_lines(above, lines);
    lemma_join_begins_with_first(lines);
    lemma_leading_whitespace(line_feeds(above) + join_lines(lines), above as int);
}

/// On the screen of the standard size, the normal form of clean text is the
/// text itself: normalising what is already normal changes nothing.
pub proof fn lemma_clean_text_is_normal(lines: Seq<Seq<char>>)
    requires
        0 < lines.len() <= SCREEN_HEIGHT,
        lines_fit(lines, SCREEN_WIDTH as nat),
        !is_blank(lines.last()),
        lines[0].len() > 0,
        !is_whitespace(lines[0][0]),
    ensures
        events_rendered(plain_events(join_lines(lines))) == join_lines(lines),
{
    lemma_clean_text_replays(lines, SCREEN_WIDTH as nat, SCREEN_HEIGHT as nat);
}

/// Events print no line feed when none of them asks to draw one. The
/// escape-sequence parser never does: to it a line feed is a control byte.
pub open spec fn prints_no_line_feed(events: Seq<TermEvent>) -> bool {
    forall|i: int| 0 <= i < events.len() ==> #[trigger] events[i] != TermEvent::Print('\n')
}

/// The lines of the rendered screen once the leading whitespace of the
/// text is gone: the blank lines at the front leave, and the first line
/// that is not blank loses the whitespace at its front.
pub open spec fn trim_lines_start(lines: Seq<Seq<char>>) -> Seq<Seq<char>>
    decreases lines.len(),
{
    if lines.len() == 0 {
        lines
    } else if is_blank(lines.first()) {
        trim_lines_start(lines.drop_first())
    } else {
        seq![trimmed_start(lines.first())] + lines.drop_first()
    }
}

/// One character takes at most four bytes.
proof fn lemma_char_byte_len(c: char)
    ensures
        1 <= byte_len(seq![c]) <= 4,
{
    reveal_with_fuel(encode_utf8, 2);
}

/// Joined lines are the first line, a line feed, and the other lines
/// joined.
proof fn lemma_join_from_front(lines: Seq<Seq<char>>)
    requires
        lines.len() >= 2,
    ensures
        join_lines(lines) == lines.first() + seq!['\n'] + join_lines(lines.drop_first()),
    decreases lines.len(),
{
    let rest = lines.drop_first();
    if lines.len() == 2 {
        assert(join_lines(lines.drop_last()) == lines.first());
    } else {
        lemma_join_from_front(lines.drop_last());
        assert(lines.drop_last().drop_first() == rest.drop_last());
        assert((lines.first() + seq!['\n'] + join_lines(rest.drop_last())) + seq!['\n']
            + lines.last() == lines.first() + seq!['\n'] + (join_lines(rest.drop_last()) + seq![
            '\n',
        ] + lines.last()));
    }
}

/// Whitespace in front of a text is trimmed away with the leading
/// whitespace of the text.
proof fn lemma_trimmed_start_after_blank(blank: Seq<char>, text: Seq<char>)
    requires
        is_blank(blank),
    ensures
        trimmed_start(blank + text) == trimmed_start(text),
{
    let all = blank + text;
    let k = leading_whitespace(text) as int;
    lemma_leading_whitespace_is_prefix(text);
    assert forall|j: int| 0 <= j < blank.len() + k implies is_whitespace(#[trigger] all[j]) by {
        if j < blank.len() {
            assert(all[j] == blank[j]);
        } else {
            assert(all[j] == text[j - blank.len()]);
        }
    }
    lemma_leading_whitespace(all, blank.len() + k);
}

/// What follows a line that is not blank stays when the line is trimmed at
/// its front.
proof fn lemma_trimmed_start_before_text(line: Seq<char>, text: Seq<char>)
    requires
        !is_blank(line),
    ensures
        trimmed_start(line + text) == trimmed_start(line) + text,
        trimmed_start(line).len() > 0,
        !is_whitespace(trimmed_start(line)[0]),
{
    let all = line + text;
    let k = leading_whitespace(line) as int;
    lemma_leading_whitespace_is_prefix(line);
    assert forall|j: int| 0 <= j < k implies is_whitespace(#[trigger] all[j]) by {
        assert(all[j] == line[j]);
    }
    lemma_leading_whitespace(all, k);
}

/// A line keeps fitting the screen when whitespace leaves its front.
proof fn lemma_trimmed_start_fits(line: Seq<char>, width: nat)
    requires
        !line.contains('\n'),
        byte_len(line) <= width,
    ensures
        !trimmed_start(line).contains('\n'),
        byte_len(trimmed_start(line)) <= width,
{
    let k = leading_whitespace(line) as int;
    lemma_leading_whitespace_is_prefix(line);
    let kept = trimmed_start(line);
    assert(line.take(k) + kept == line);
    lemma_byte_len_add(line.take(k), kept);
    assert forall|i: int| 0 <= i < kept.len() implies kept[i] != '\n' by {
        assert(kept[i] == line[i + k]);
    }
}

/// Trimming the rendered text at its front is trimming its lines at the
/// front: where the last line is not blank, the trimmed text is made of
/// lines again, and these are clean.
proof fn lemma_trimmed_join(lines: Seq<Seq<char>>, width: nat)
    requires
        lines.len() > 0,
        !is_blank(lines.last()),
        lines_fit(lines, width),
    ensures
        trimmed_start(join_lines(lines)) == join_lines(trim_lines_start(lines)),
        0 < trim_lines_start(lines).len() <= lines.len(),
        lines_fit(trim_lines_start(lines), width),
        !is_blank(trim_lines_start(lines).last()),
        trim_lines_start(lines)[0].len() > 0,
        !is_whitespace(trim_lines_start(lines)[0][0]),
    decreases lines.len(),
{
    let first = lines.first();
    let rest = lines.drop_first();
    let kept = trim_lines_start(lines);
    if is_blank(first) {
        assert(lines_fit(rest, width)) by {
            assert forall|i: int| 0 <= i < rest.len() implies !(#[trigger] rest[i]).contains('\n')
                && byte_len(rest[i]) <= width by {
                assert(rest[i] == lines[i + 1]);
            }
        }
        lemma_trimmed_join(rest, width);
        lemma_join_from_front(lines);
        let front = first + seq!['\n'];
        assert(is_blank(front)) by {
            assert forall|i: int| 0 <= i < front.len() implies is_whitespace(
                #[trigger] front[i],
            ) by {
                if i < first.len() {
                    assert(front[i] == first[i]);
                }
            }
        }
        lemma_trimmed_start_after_blank(front, join_lines(rest));
    } else {
        lemma_trimmed_start_fits(first, width);
        assert(lines_fit(kept, width)) by {
            assert forall|i: int| 0 <= i < kept.len() implies !(#[trigger] kept[i]).contains('\n')
                && byte_len(kept[i]) <= width by {
                if i > 0 {
                    assert(kept[i] == lines[i]);
                }
            }
        }
        if lines.len() == 1 {
            lemma_trimmed_start_before_text(first, Seq::empty());
            assert(!is_whitespace(kept.last()[0]));
        } else {
            lemma_join_from_front(lines);
            lemma_join_from_front(kept);
            assert(kept.drop_first() == rest);
            let tail = seq!['\n'] + join_lines(rest);
            assert(first + seq!['\n'] + join_lines(rest) == first + tail);
            lemma_trimmed_start_before_text(first, tail);
            assert(trimmed_start(first) + tail == trimmed_start(first) + seq!['\n'] + join_lines(
                rest,
            ));
        }
    }
}

/// On a fresh screen that is at least four bytes wide, events that print
/// no line feed leave lines that fit the screen, as many as the screen is
/// high.
proof fn lemma_screen_lines_fit(width: nat, height: nat, events: Seq<TermEvent>)
    requires
        width >= 4,
        height > 0,
        prints_no_line_feed(events),
    ensures
        performed_all(ScreenView::blank(width, height), events).lines.len() == height,
        performed_all(ScreenView::blank(width, height), events).width == width,
        performed_all(ScreenView::blank(width, height), events).height == height,
        lines_fit(performed_all(ScreenView::blank(width, height), events).lines, width),
    decreases events.len(),
{
    let fresh = ScreenView::blank(width, height);
    if events.len() > 0 {
        let before_events = events.drop_last();
        assert(prints_no_line_feed(before_events)) by {
            assert forall|i: int| 0 <= i < before_events.len() implies #[trigger] before_events[i]
                != TermEvent::Print('\n') by {
                assert(before_events[i] == events[i]);
            }
        }
        lemma_screen_lines_fit(width, height, before_events);
        let before = performed_all(fresh, before_events);
        let after = performed(before, events.last());
        match events.last() {
            TermEvent::Print(c) => {
                lemma_char_byte_len(c);
                let newest = before.lines.last();
                lemma_byte_len_add(newest, seq![c]);
                let longer = newest + seq![c];
                assert forall|j: int| 0 <= j < longer.len() implies longer[j] != '\n' by {
                    if j < newest.len() {
                        assert(longer[j] == newest[j]);
                    }
                }
                assert forall|i: int| 0 <= i < after.lines.len() implies !(
                #[trigger] after.lines[i]).contains('\n') && byte_len(after.lines[i])
                    <= width by {
                    if i < after.lines.len() - 1 {
                        if byte_len(newest) + byte_len(seq![c]) > width {
                            assert(after.lines[i] == before.lines[i + 1]);
                        } else {
                            assert(after.lines[i] == before.lines[i]);
                        }
                    }
                }
            },
            TermEvent::Execute(byte) => {
                assert forall|i: int| 0 <= i < after.lines.len() implies !(
                #[trigger] after.lines[i]).contains('\n') && byte_len(after.lines[i])
                    <= width by {
                    if byte != 0x0A {
                        assert(after.lines[i] == before.lines[i]);
                    } else if i < after.lines.len() - 1 {
                        assert(after.lines[i] == before.lines[i + 1]);
                    }
                }
            },
        }
    }
}

/// What is left of lines when the blank ones at the end are dropped is a
/// front part of the lines, and it is empty or ends with a line that is
/// not blank.
proof fn lemma_drop_blank_tail_is_front(lines: Seq<Seq<char>>)
    ensures
        drop_blank_tail(lines).len() <= lines.len(),
        drop_blank_tail(lines) == lines.take(drop_blank_tail(lines).len() as int),
        drop_blank_tail(lines).len() > 0 ==> !is_blank(drop_blank_tail(lines).last()),
    decreases lines.len(),
{
    if lines.len() > 0 && is_blank(lines.last()) {
        lemma_drop_blank_tail_is_front(lines.drop_last());
    }
}

/// A screen of empty lines shows nothing.
proof fn lemma_blank_screen_renders_empty(count: nat)
    ensures
        drop_blank_tail(blank_lines(count)) == Seq::<Seq<char>>::empty(),
    decreases count,
{
    if count > 0 {
        assert(blank_lines(count).drop_last() == blank_lines((count - 1) as nat));
        lemma_blank_screen_renders_empty((count - 1) as nat);
    }
}

/// Normalising is idempotent. Whatever events have been rendered on a
/// fresh screen, the text that came out is clean: replayed on a fresh
/// screen of the same size as plain text, it comes out unchanged. This
/// holds of every screen that is at least one line high and wide enough
/// for one character, and of all events that print no line feed.
pub proof fn lemma_rendered_text_replays(width: nat, height: nat, events: Seq<TermEvent>)
    requires
        width >= 4,
        height > 0,
        prints_no_line_feed(events),
    ensures
        ({
            let fresh = ScreenView::blank(width, height);
            let text = trimmed_start(performed_all(fresh, events).render());
            trimmed_start(performed_all(fresh, plain_events(text)).render()) == text
        }),
{
    let fresh = ScreenView::blank(width, height);
    let screen = performed_all(fresh, events);
    let shown = drop_blank_tail(screen.lines);
    lemma_screen_lines_fit(width, height, events);
    lemma_drop_blank_tail_is_front(screen.lines);
    if shown.len() == 0 {
        lemma_blank_screen_renders_empty(height);
    } else {
        assert(lines_fit(shown, width)) by {
            assert forall|i: int| 0 <= i < shown.len() implies !(#[trigger] shown[i]).contains(
                '\n',
            ) && byte_len(shown[i]) <= width by {
                assert(shown[i] == screen.lines[i]);
            }
        }
        lemma_trimmed_join(shown, width);
        lemma_clean_text_replays(trim_lines_start(shown), width, height);
    }
}

/// Normalising on the screen of the standard size is idempotent: the text
/// that events render to, fed again as plain text, renders to itself.
pub proof fn lemma_normal_form_is_stable(events: Seq<TermEvent>)
    requires
        prints_no_line_feed(events),
    ensures
        events_rendered(plain_events(events_rendered(events))) == events_rendered(events),
{
    lemma_rendered_text_replays(SCREEN_WIDTH as nat, SCREEN_HEIGHT as nat, events);
}

/// The parser reads a text plainly when it dispatches one event for each
/// character of the text: a print for each character but the line feed, and
/// an execute for each line feed. This is what a parser of escape sequences
/// does with text that holds no control character but the line feed.
pub open spec fn reads_plainly(text: Seq<char>) -> bool {
    vte_dispatch(encode_utf8(text)) == plain_events(text)
}

/// Text without tabs stays as it is when its tabs are expanded.
pub proof fn lemma_tabs_expanded_without_tabs(text: Seq<char>)
    requires
        !text.contains('\t'),
    ensures
        tabs_expanded(text) == text,
    decreases text.len(),
{
    if text.len() > 0 {
        let head = text.drop_last();
        assert forall|i: int| 0 <= i < head.len() implies head[i] != '\t' by {
            assert(head[i] == text[i]);
        }
        assert(text[text.len() - 1] != '\t');
        lemma_tabs_expanded_without_tabs(head);
        assert(head.push(text.last()) == text);
    }
}

/// Clean text is its own normal form, where the parser reads it plainly:
/// text without tabs whose lines fit the standard screen, that ends with a
/// line that is not blank and begins with a visible character, comes out
/// of the normaliser unchanged.
pub proof fn lemma_clean_text_is_its_normal_form(lines: Seq<Seq<char>>)
    requires
        0 < lines.len() <= SCREEN_HEIGHT,
        lines_fit(lines, SCREEN_WIDTH as nat),
        !is_blank(lines.last()),
        lines[0].len() > 0,
        !is_whitespace(lines[0][0]),
        !join_lines(lines).contains('\t'),
        reads_plainly(join_lines(lines)),
    ensures
        normalized(join_lines(lines)) == join_lines(lines),
{
    lemma_tabs_expanded_without_tabs(join_lines(lines));
    lemma_clean_text_is_normal(lines);
}

/// Normalising twice is normalising once, where the parser prints no line
/// feed and no tab for the text and reads the normal form plainly.
pub proof fn lemma_normalized_is_idempotent(text: Seq<char>)
    requires
        prints_no_line_feed(vte_dispatch(encode_utf8(tabs_expanded(text)))),
        !normalized(text).contains('\t'),
        reads_plainly(normalized(text)),
    ensures
        normalized(normalized(text)) == normalized(text),
{
    lemma_tabs_expanded_without_tabs(normalized(text));
    lemma_normal_form_is_stable(vte_dispatch(encode_utf8(tabs_expanded(text))));
}

/// The lines after one event where no line is ever dropped: a scroll opens
/// a new line below the others and takes none away.
pub open spec fn history_performed(
    lines: Seq<Seq<char>>,
    width: nat,
    event: TermEvent,
) -> Seq<Seq<char>> {
    match event {
        TermEvent::Print(c) => if lines.len() == 0 {
            lines
        } else if byte_len(lines.last()) + byte_len(seq![c]) > width {
            lines.push(seq![c])
        } else {
            extended(lines, seq![c])
        },
        TermEvent::Execute(byte) => if byte == 0x0A {
            lines.push(Seq::empty())
        } else {
            lines
        },
    }
}

/// All lines that events have written below the empty lines of a fresh
/// screen, from the oldest to the newest, with none dropped.
pub open spec fn history(width: nat, height: nat, events: Seq<TermEvent>) -> Seq<Seq<char>>
    decreases events.len(),
{
    if events.len() == 0 {
        blank_lines(height)
    } else {
        history_performed(history(width, height, events.drop_last()), width, events.last())
    }
}

/// The screen is a window over the history: whatever was performed, it
/// holds the newest lines of all that were written, as many as it is high,
/// in their order. What scrolls out of it is the oldest line and no other.
pub proof fn lemma_screen_holds_newest_lines(width: nat, height: nat, events: Seq<TermEvent>)
    requires
        height > 0,
    ensures
        history(width, height, events).len() >= height,
        performed_all(ScreenView::blank(width, height), events) == (ScreenView {
            lines: history(width, height, events).skip(
                history(width, height, events).len() - height,
            ),
            width,
            height,
        }),
    decreases events.len(),
{
    let fresh = ScreenView::blank(width, height);
    if events.len() == 0 {
        assert(blank_lines(height).skip(0) == blank_lines(height));
    } else {
        lemma_screen_holds_newest_lines(width, height, events.drop_last());
        let before = performed_all(fresh, events.drop_last());
        let after = performed(before, events.last());
        let all_after = history(width, height, events);
        assert(after.lines == all_after.skip(all_after.len() - height));
    }
}

} // verus!
