use wcgw::tools::render_terminal::{
    expand_tabs, render_events, render_terminal_output, EventLog, TermEvent, TerminalEmulator,
};
use wcgw::tools::screen::Screen;

fn render(text: &str) -> String {
    render_terminal_output(text.to_string())
}

#[test]
fn plain_text_is_kept() {
    assert_eq!(render("hello"), "hello");
    assert_eq!(render("hello\r\n"), "hello");
    assert_eq!(render("a\nb\nc"), "a\nb\nc");
}

#[test]
fn empty_output_renders_empty() {
    assert_eq!(render(""), "");
    assert_eq!(render("\n\n\n"), "");
    assert_eq!(render("   \n \t \n"), "");
}

#[test]
fn leading_whitespace_is_trimmed() {
    assert_eq!(render("   x"), "x");
    assert_eq!(render("\n\n  x  y"), "x  y");
}

#[test]
fn trailing_blank_lines_are_dropped_but_inner_ones_stay() {
    assert_eq!(render("a\n\n\nb\n\n   \n"), "a\n\n\nb");
}

#[test]
fn trailing_spaces_of_the_last_line_stay() {
    assert_eq!(render("a  \n"), "a  ");
}

#[test]
fn tabs_become_four_spaces() {
    assert_eq!(render("a\tb"), "a    b");
    assert_eq!(expand_tabs("\t\tx\t"), "        x    ");
    assert_eq!(expand_tabs("no tabs"), "no tabs");
    assert_eq!(expand_tabs(""), "");
}

#[test]
fn colour_sequences_are_consumed() {
    assert_eq!(render("\x1b[31mred\x1b[0m plain"), "red plain");
    assert_eq!(render("\x1b[1;32mok\x1b[m"), "ok");
}

#[test]
fn cursor_sequences_do_not_move_the_write_position() {
    assert_eq!(render("ab\x1b[2Dcd"), "abcd");
    assert_eq!(render("ab\x1b[Hcd"), "abcd");
    assert_eq!(render("\x1b[2J\x1b[Hx"), "x");
}

#[test]
fn operating_system_commands_are_consumed() {
    assert_eq!(render("\x1b]0;window title\x07visible"), "visible");
}

#[test]
fn carriage_return_and_other_controls_leave_the_screen_alone() {
    assert_eq!(render("ab\rcd"), "abcd");
    assert_eq!(render("a\x07b\x08c"), "abc");
}

#[test]
fn unicode_is_printed_by_character() {
    assert_eq!(render("héllo wörld ✓"), "héllo wörld ✓");
}

#[test]
fn a_long_line_wraps_at_the_width_in_bytes() {
    let line = "x".repeat(161);
    let expected = format!("{}\n{}", "x".repeat(160), "x");
    assert_eq!(render(&line), expected);
    let exact = "y".repeat(160);
    assert_eq!(render(&exact), exact);
}

#[test]
fn width_counts_bytes_of_wide_characters() {
    // 80 two-byte characters fill the 160 bytes of a line.
    let line = "é".repeat(81);
    let expected = format!("{}\n{}", "é".repeat(80), "é");
    assert_eq!(render(&line), expected);
}

#[test]
fn long_output_keeps_the_newest_lines() {
    let mut text = String::new();
    for i in 0..5000 {
        text.push_str(&format!("line {}\n", i));
    }
    let output = render(&text);
    let lines: Vec<&str> = output.lines().collect();
    assert_eq!(lines.len(), 499);
    assert_eq!(lines[0], "line 4501");
    assert_eq!(lines[498], "line 4999");
}

#[test]
fn five_thousand_repeated_lines_leave_at_most_the_height() {
    let text = "same line\n".repeat(5000);
    let output = render(&text);
    let lines: Vec<&str> = output.lines().collect();
    assert!(lines.len() <= 500);
    assert_eq!(lines.len(), 499);
    assert!(lines.iter().all(|line| *line == "same line"));
}

#[test]
fn rendering_is_repeatable() {
    let text = "\x1b[32mfirst\x1b[0m\r\n\tsecond\r\n";
    let once = render(text);
    let again = render(text);
    assert_eq!(once, again);
    assert_eq!(once, "first\n    second");
}

#[test]
fn clean_text_renders_to_itself() {
    let text = "first line\nsecond line\n\nfourth line";
    let once = render(text);
    assert_eq!(once, text);
    assert_eq!(render(&once), once);
}

#[test]
fn events_render_like_the_bytes_they_came_from() {
    let events = vec![
        TermEvent::Print('h'),
        TermEvent::Print('i'),
        TermEvent::Execute(b'\r'),
        TermEvent::Execute(b'\n'),
        TermEvent::Print('!'),
    ];
    assert_eq!(render_events(&events), "hi\n!");
    assert_eq!(render_events(&Vec::new()), "");
}

#[test]
fn the_event_log_records_what_the_parser_dispatches() {
    let mut parser = vte::Parser::new();
    let mut log = EventLog { events: Vec::new() };
    for byte in b"a\x1b[31mb\n" {
        parser.advance(&mut log, *byte);
    }
    assert_eq!(
        log.events,
        vec![TermEvent::Print('a'), TermEvent::Print('b'), TermEvent::Execute(b'\n')]
    );
}

#[test]
fn emulator_prints_and_executes() {
    let mut emulator = TerminalEmulator::new(10, 3);
    emulator.print('a');
    emulator.execute(b'\n');
    emulator.print('b');
    emulator.execute(b'\r');
    emulator.execute(0x07);
    assert_eq!(emulator.render(), "\na\nb");
    emulator.feed("\x1b[1mc\x1b[0m\nd");
    assert_eq!(emulator.render(), "a\nbc\nd");
}

#[test]
fn emulator_performs_events_in_order() {
    let mut emulator = TerminalEmulator::new(4, 2);
    emulator.perform(&vec![
        TermEvent::Print('a'),
        TermEvent::Print('b'),
        TermEvent::Execute(b'\n'),
        TermEvent::Print('c'),
    ]);
    assert_eq!(emulator.render(), "ab\nc");
}

#[test]
fn screen_starts_blank() {
    let screen = Screen::new(10, 3);
    assert_eq!(screen.render(), "");
}

#[test]
fn screen_writes_to_the_newest_line() {
    let mut screen = Screen::new(10, 3);
    screen.write_text("abc");
    screen.write_text("def");
    assert_eq!(screen.render(), "\n\nabcdef");
}

#[test]
fn screen_scrolls_when_the_line_is_full() {
    let mut screen = Screen::new(5, 3);
    screen.write_text("abc");
    screen.write_text("de");
    assert_eq!(screen.render(), "\n\nabcde");
    screen.write_text("f");
    assert_eq!(screen.render(), "\nabcde\nf");
}

#[test]
fn screen_drops_the_oldest_line() {
    let mut screen = Screen::new(5, 2);
    screen.write_text("one");
    screen.scroll_up();
    screen.write_text("two");
    screen.scroll_up();
    screen.write_text("three");
    assert_eq!(screen.render(), "two\nthree");
}

#[test]
fn screen_takes_text_wider_than_itself_on_a_line_of_its_own() {
    let mut screen = Screen::new(3, 3);
    screen.write_text("a");
    screen.write_text("wide text");
    assert_eq!(screen.render(), "\na\nwide text");
}

#[test]
fn screen_without_height_takes_text_after_its_first_scroll() {
    let mut screen = Screen::new(5, 0);
    screen.write_text("lost");
    assert_eq!(screen.render(), "");
    screen.scroll_up();
    screen.write_text("kept");
    assert_eq!(screen.render(), "kept");
    screen.scroll_up();
    screen.write_text("next");
    assert_eq!(screen.render(), "next");
}

#[test]
fn screen_render_keeps_blank_lines_between_text() {
    let mut screen = Screen::new(5, 4);
    screen.write_text("a");
    screen.scroll_up();
    screen.write_text("  ");
    screen.scroll_up();
    screen.write_text("b");
    screen.scroll_up();
    screen.write_text(" ");
    assert_eq!(screen.render(), "a\n  \nb");
}

#[test]
fn normalising_twice_changes_nothing() {
    let samples = [
        "\x1b[32mfirst\x1b[0m\r\n\tsecond\r\n",
        "   leading and trailing   \n\n\n",
        "a\n\n\nb\n   \n",
        "prompt$ ls\r\nfile one\r\nfile two\r\n",
        "héllo ✓\n  indented\n",
        "",
    ];
    for sample in samples {
        let once = render(sample);
        assert_eq!(render(&once), once, "{:?}", sample);
    }
    let long = "x".repeat(1000);
    let once = render(&long);
    assert_eq!(render(&once), once);
    let many = "line\n".repeat(2000);
    let once = render(&many);
    assert_eq!(render(&once), once);
}

#[test]
fn the_screen_shows_the_newest_lines_of_all_that_were_written() {
    let mut small = Screen::new(8, 3);
    let mut large = Screen::new(8, 50);
    for word in ["one", "two", "three", "four", "five", "six"] {
        small.write_text(word);
        small.scroll_up();
        large.write_text(word);
        large.scroll_up();
    }
    small.write_text("end");
    large.write_text("end");
    assert_eq!(small.render(), "five\nsix\nend");
    assert!(large.render().ends_with("five\nsix\nend"));
}

#[test]
fn a_megabyte_of_output_is_normalised() {
    let mut text = String::new();
    let mut i = 0;
    while text.len() < 1_000_000 {
        text.push_str(&format!("\x1b[3{}mrow {}\x1b[0m\tcolumn\r\n", i % 8, i));
        i += 1;
    }
    let output = render(&text);
    let lines: Vec<&str> = output.lines().collect();
    assert_eq!(lines.len(), 499);
    assert_eq!(lines[498], format!("row {}    column", i - 1));
    assert_eq!(lines[0], format!("row {}    column", i - 499));
}

#[test]
fn whitespace_alone_renders_empty_however_much() {
    let text = " \t\r\n".repeat(50_000);
    assert_eq!(render(&text), "");
}
