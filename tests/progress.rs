use mocha_compositor::progress::ProgressBars;

#[test]
fn render_ascii_two_bars() {
    let mut out = String::new();
    ProgressBars::new()
        .ascii(true)
        .terminal_width(20)
        .add("a", 1, 2)
        .add("bcd", 10, 10)
        .render(&mut out);
    let expected = format!(
        "{}{}{}{}{}",
        "\r\n\x1b[K\r\n\x1b[K",
        "\r\x1b[2A",
        "\ra   -------- ".to_string() + "        " + "1 / 2\x1b[1B",
        "\rbcd -------------- 10 / 10\x1b[1B",
        "\r\x1b[2A"
    );
    assert_eq!(out, expected);
}

#[test]
fn render_box_characters_by_default() {
    let mut out = String::new();
    ProgressBars::new().terminal_width(10).add("x", 3, 3).render(&mut out);
    // message "3 / 3" leaves 10 - 4 = 6 columns, all filled.
    let bar: String = std::iter::repeat('\u{2501}').take(6).collect();
    let expected = format!("\r\n\x1b[K\r\x1b[1A\rx {bar} 3 / 3\x1b[1B\r\x1b[1A");
    assert_eq!(out, expected);
}

#[test]
fn render_empty_widget() {
    let mut out = String::from("keep:");
    ProgressBars::new().render(&mut out);
    assert_eq!(out, "keep:\r\x1b[0A\r\x1b[0A");
}

#[test]
fn render_pads_completed_counts_and_zero_total() {
    let mut out = String::new();
    ProgressBars::new()
        .ascii(true)
        .terminal_width(12)
        .add("p", 5, 100)
        .add("q", 0, 0)
        .render(&mut out);
    // completed width is log10(5) = 0, so no padding of "5"; "5 / 100" has 7
    // characters, room 12 - 6 = 6, fill 5 * 6 / 100 = 0.
    // "0 / 0" has 5 characters, room 12 - 4 = 8, fill 0.
    let expected = format!(
        "\r\n\x1b[K\r\n\x1b[K\r\x1b[2A\rp {}5 / 100\x1b[1B\rq {}0 / 0\x1b[1B\r\x1b[2A",
        " ".repeat(7),
        " ".repeat(9)
    );
    assert_eq!(out, expected);
}

#[test]
fn render_narrow_terminal_has_no_room() {
    let mut out = String::new();
    ProgressBars::new().ascii(true).terminal_width(2).add("lbl", 7, 9).render(&mut out);
    assert_eq!(out, "\r\n\x1b[K\r\x1b[1A\rlbl  7 / 9\x1b[1B\r\x1b[1A");
}

#[test]
fn render_right_aligns_smaller_counts() {
    let mut out = String::new();
    ProgressBars::new()
        .ascii(true)
        .terminal_width(8)
        .add("a", 5, 500)
        .add("b", 500, 500)
        .render(&mut out);
    // completed width is log10(500) = 2: "5" becomes " 5".
    // " 5 / 500" has 8 characters: room 8 - 7 = 1, fill 0.
    // "500 / 500" has 9 characters: room 0.
    let expected = "\r\n\x1b[K\r\n\x1b[K\r\x1b[2A\ra    5 / 500\x1b[1B\rb  500 / 500\x1b[1B\r\x1b[2A";
    assert_eq!(out, expected);
}
