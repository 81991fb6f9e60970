use typeset::{
    is_white_char, lines, random_char, random_string, random_strings, trimmed_width,
    StaticPrefixText, Terminal, MAX_CODE, MAX_LEN, MIN_CODE, MIN_LEN, RESET_PERIOD,
};

fn assert_random(s: &str) {
    let n = s.chars().count();
    assert!(n >= 1 && n <= 39, "length {} out of range", n);
    for c in s.chars() {
        let u = c as u32;
        assert!(u >= 33 && u <= 126, "character {:?} out of range", c);
    }
}

#[test]
fn random_strings_have_bounded_length_and_printable_chars() {
    for _ in 0..2000 {
        assert_random(&random_string());
    }
    assert_eq!((MIN_LEN, MAX_LEN, MIN_CODE, MAX_CODE), (1, 39, 33, 126));
}

#[test]
fn random_strings_vary_in_length_and_content() {
    let mut lengths = std::collections::BTreeSet::new();
    let mut chars = std::collections::BTreeSet::new();
    for _ in 0..2000 {
        let s = random_string();
        lengths.insert(s.chars().count());
        for c in s.chars() {
            chars.insert(c);
        }
    }
    assert!(lengths.len() > 10);
    assert!(chars.len() > 50);
}

#[test]
fn random_char_is_printable_non_space() {
    for _ in 0..5000 {
        let c = random_char() as u32;
        assert!(c >= 33 && c <= 126);
    }
}

#[test]
fn random_strings_gives_requested_count() {
    assert_eq!(random_strings(0).len(), 0);
    let v = random_strings(32);
    assert_eq!(v.len(), 32);
    for s in &v {
        assert_random(s);
    }
}

#[test]
fn new_generator_has_line_count_pairs() {
    let t = StaticPrefixText::new(32);
    assert_eq!(t.prefixes().len(), 32);
    assert_eq!(t.postfixes().len(), 32);
    assert_eq!(t.update_count(), 0);
    for s in t.prefixes().iter().chain(t.postfixes().iter()) {
        assert_random(s);
    }
}

#[test]
fn refresh_keeps_lengths_and_prefixes() {
    let mut t = StaticPrefixText::new(5);
    let prefixes = t.prefixes().clone();
    for k in 1..=100 {
        t.update_postfixes();
        assert_eq!(t.prefixes().len(), 5);
        assert_eq!(t.postfixes().len(), 5);
        assert_eq!(t.update_count(), k);
        assert_eq!(t.prefixes(), &prefixes);
    }
}

#[test]
fn wall_twice_without_refresh_is_identical() {
    let t = StaticPrefixText::new(8);
    assert_eq!(t.wall(), t.wall());
}

#[test]
fn wall_formats_prefix_colon_postfix_lines() {
    let t = StaticPrefixText::new(3);
    let mut expected = String::new();
    for (p, q) in t.prefixes().iter().zip(t.postfixes().iter()) {
        expected += &format!("{}: {}\n", p, q);
    }
    assert_eq!(t.wall(), expected);
    assert_eq!(StaticPrefixText::new(0).wall(), "");
}

#[test]
fn periodic_reset_after_exactly_the_period() {
    assert_eq!(RESET_PERIOD, 4096);
    let mut t = StaticPrefixText::new(4);
    let prefixes = t.prefixes().clone();
    for _ in 0..4095 {
        t.update_postfixes();
    }
    assert_eq!(t.update_count(), 4095);
    assert_eq!(t.prefixes(), &prefixes);
    t.update_postfixes();
    assert_eq!(t.update_count(), 0);
    assert_eq!(t.prefixes().len(), 4);
    assert_eq!(t.postfixes().len(), 4);
    assert_ne!(t.prefixes(), &prefixes);
}

#[test]
fn new_terminal_has_empty_frame_and_one_zero_width() {
    let t = Terminal::new();
    assert_eq!(t.frame(), "");
    assert_eq!(t.line_lengths(), &vec![0]);
}

#[test]
fn end_to_end_two_lines_without_history() {
    let text = StaticPrefixText::new(2);
    let wall = text.wall();
    let ls: Vec<&str> = wall.lines().collect();
    assert_eq!(ls.len(), 2);
    assert_eq!(ls[0], format!("{}: {}", text.prefixes()[0], text.postfixes()[0]));
    assert_eq!(ls[1], format!("{}: {}", text.prefixes()[1], text.postfixes()[1]));

    let mut term = Terminal::new();
    // Sending the empty first frame leaves no width recorded.
    assert_eq!(term.render(), "");
    assert!(term.line_lengths().is_empty());
    assert_eq!(term.frame(), "\x1b[H");

    term.typeset(wall.clone());
    assert_eq!(term.frame(), format!("\x1b[H{}", wall));

    let sent = term.render();
    assert_eq!(sent, format!("\x1b[H{}", wall));
    // The first line carries the cursor-home sequence in front of it.
    let first = format!("\x1b[H{}", ls[0]);
    assert_eq!(
        term.line_lengths(),
        &vec![first.trim().len(), ls[1].trim().len()]
    );
    assert_eq!(term.frame(), "\x1b[H");
}

#[test]
fn padding_against_history_ten_and_three() {
    let mut term = Terminal::new();
    term.typeset(String::from("abcdefghij\nxyz\n"));
    term.render();
    assert_eq!(term.line_lengths(), &vec![10, 3]);

    term.typeset(String::from("abcd\nvwxyz\n"));
    assert_eq!(term.frame(), "\x1b[Habcd      \nvwxyz\n");
}

#[test]
fn padding_is_exact_difference_or_zero() {
    let mut term = Terminal::new();
    term.typeset(String::from("12345678\n"));
    term.render();
    assert_eq!(term.line_lengths(), &vec![8]);
    term.typeset(String::from("123\n456\n"));
    assert_eq!(term.frame(), "\x1b[H123     \n456\n");
}

#[test]
fn first_frame_pads_only_the_first_row() {
    let mut term = Terminal::new();
    term.typeset(String::from("ab\ncd\n"));
    assert_eq!(term.frame(), "ab\ncd\n");
}

#[test]
fn recorded_widths_exclude_padding() {
    let mut term = Terminal::new();
    term.typeset(String::from("abcdefghij\n"));
    term.render();
    term.typeset(String::from("ab\n"));
    term.render();
    // The first row holds ESC [ H before its text.
    assert_eq!(term.line_lengths(), &vec![5]);
}

#[test]
fn widths_are_counted_in_bytes() {
    let mut term = Terminal::new();
    term.typeset(String::from("abcdef\n"));
    term.render();
    assert_eq!(term.line_lengths(), &vec![6]);
    // Two characters of two bytes each leave two bytes to cover.
    term.typeset(String::from("éé\n"));
    assert_eq!(term.frame(), "\x1b[Héé  \n");
}

#[test]
fn lines_split_like_std() {
    for s in ["", "\n", "a", "a\n", "a\nb", "a\r\nb\r\n", "a\n\nb\n", "x\r", "\r\n", "a\rb\n"] {
        let ours = lines(s);
        let std: Vec<String> = s.lines().map(String::from).collect();
        assert_eq!(ours, std, "input {:?}", s);
    }
}

#[test]
fn trimmed_width_matches_std_trim() {
    for s in ["", "   ", " ab ", "\tab\u{3000}", "\u{a0}é\u{2009}", "abc", "\x1b[Hab  "] {
        assert_eq!(trimmed_width(s), s.trim().len(), "input {:?}", s);
    }
}

#[test]
fn white_space_matches_std() {
    for u in 0u32..0x3100 {
        if let Some(c) = char::from_u32(u) {
            assert_eq!(is_white_char(c), c.is_whitespace(), "code {:#x}", u);
        }
    }
}

fn strings(v: &[&str]) -> Vec<String> {
    v.iter().map(|s| String::from(*s)).collect()
}

#[test]
fn refresh_with_replaces_postfixes_and_counts() {
    let mut t = StaticPrefixText::new(2);
    let prefixes = t.prefixes().clone();
    assert!(!t.next_is_reset());
    t.refresh_with(None, strings(&["abc", "~!x"]));
    assert_eq!(t.postfixes(), &strings(&["abc", "~!x"]));
    assert_eq!(t.prefixes(), &prefixes);
    assert_eq!(t.update_count(), 1);
    assert_eq!(
        t.wall(),
        format!("{}: abc\n{}: ~!x\n", prefixes[0], prefixes[1])
    );
}

#[test]
fn refresh_with_at_reset_replaces_prefixes_and_zeroes_counter() {
    let mut t = StaticPrefixText::new(2);
    for _ in 0..4095 {
        assert!(!t.next_is_reset());
        t.update_postfixes();
    }
    assert!(t.next_is_reset());
    t.refresh_with(Some(strings(&["P1", "P2"])), strings(&["Q1", "Q2"]));
    assert_eq!(t.prefixes(), &strings(&["P1", "P2"]));
    assert_eq!(t.postfixes(), &strings(&["Q1", "Q2"]));
    assert_eq!(t.update_count(), 0);
    assert_eq!(t.wall(), "P1: Q1\nP2: Q2\n");
    assert!(!t.next_is_reset());
}

#[test]
fn update_postfixes_draws_new_postfixes() {
    let mut t = StaticPrefixText::new(4);
    let before = t.postfixes().clone();
    t.update_postfixes();
    assert_eq!(t.postfixes().len(), 4);
    assert_ne!(t.postfixes(), &before);
}
