use asterbase::terminal::{get_yes_no, question_prompt, read_tokens, same_text, stub_prompt, to_str, write_full};

#[test]
fn short_text_is_one_line() {
    assert_eq!(write_full("Hello there."), vec!["---------> Hello there.".to_string()]);
}

#[test]
fn empty_text_is_one_prompt() {
    assert_eq!(write_full(""), vec!["---------> ".to_string()]);
}

#[test]
fn newline_starts_a_tabbed_line() {
    assert_eq!(write_full("one\ntwo"), vec!["---------> one".to_string(), "         > two".to_string()]);
}

#[test]
fn trailing_newline_gives_an_empty_last_line() {
    assert_eq!(write_full("one\n"), vec!["---------> one".to_string(), "         > ".to_string()]);
}

#[test]
fn long_text_breaks_at_the_last_space_within_the_width() {
    let word = "abcdefghi";
    let text = vec![word; 10].join(" ");
    let lines = write_full(&text);
    // the 69 characters of room end inside the seventh word, so the line breaks after the sixth
    assert_eq!(lines[0], format!("---------> {}", vec![word; 6].join(" ")));
    assert_eq!(lines[1], format!("         > {}", vec![word; 4].join(" ")));
    assert_eq!(lines.len(), 2);
}

#[test]
fn text_without_spaces_is_shown_whole() {
    let text = "x".repeat(75);
    let lines = write_full(&text);
    assert_eq!(lines, vec![format!("---------> {}", "x".repeat(75))]);
    let text = "a".repeat(70);
    let lines = write_full(&text);
    assert_eq!(lines, vec![format!("---------> {}", "a".repeat(70))]);
}

#[test]
fn every_line_has_a_prompt_and_the_last_fits() {
    let text = "The quick brown fox jumps over the lazy dog and keeps on running far beyond the hills\nand valleys of the land, where nobody has ever seen a fox that fast.";
    let lines = write_full(text);
    assert!(lines[0].starts_with("---------> "));
    for l in &lines[1..] {
        assert!(l.starts_with("         > "));
    }
    assert!(lines.last().unwrap().chars().count() <= 11 + 69);
    assert!(text.ends_with(&lines.last().unwrap()[11..]));
}

#[test]
fn tokens_are_the_first_two_words_in_lower_case() {
    assert_eq!(read_tokens("  TAKE   Lamp  now "), vec!["take".to_string(), "lamp".to_string()]);
    assert_eq!(read_tokens("Look"), vec!["look".to_string()]);
    assert_eq!(read_tokens("\tGo\tNORTH"), vec!["go".to_string(), "north".to_string()]);
}

#[test]
fn unicode_spaces_separate_tokens() {
    assert_eq!(read_tokens("take\u{00A0}lamp\n"), vec!["take".to_string(), "lamp".to_string()]);
    assert_eq!(read_tokens("\u{3000}go\u{2003}north"), vec!["go".to_string(), "north".to_string()]);
}

#[test]
fn blank_line_gives_no_tokens() {
    assert!(read_tokens("   \t  ").is_empty());
    assert!(read_tokens("").is_empty());
}

#[test]
fn lower_case_follows_unicode() {
    assert_eq!(read_tokens("ÄPFEL"), vec!["äpfel".to_string()]);
}

#[test]
fn stub_prompt_pads_short_names() {
    assert_eq!(stub_prompt("Hall"), "Hall     > ".to_string());
    assert_eq!(stub_prompt("Corridor"), "Corridor > ".to_string());
    assert_eq!(stub_prompt("Observatory"), "Observatory > ".to_string());
    // the padding counts bytes, as `str::len` does
    assert_eq!(stub_prompt("Café"), "Café    > ".to_string());
}

#[test]
fn question_prompt_follows_the_full_prompt() {
    assert_eq!(question_prompt("Are you sure?"), "---------> Are you sure? ".to_string());
}

#[test]
fn yes_no_words() {
    for w in ["yes", "y", "true"] {
        assert_eq!(get_yes_no(w), Some(true));
    }
    for w in ["no", "n", "false"] {
        assert_eq!(get_yes_no(w), Some(false));
    }
    assert_eq!(get_yes_no("maybe"), None);
    assert_eq!(get_yes_no("Yes"), None);
    assert_eq!(get_yes_no(""), None);
}

#[test]
fn same_text_compares_characters() {
    assert!(same_text("lamp", "lamp"));
    assert!(!same_text("lamp", "lamps"));
    assert!(!same_text("lamp", "camp"));
}

#[test]
fn to_str_keeps_the_characters() {
    assert_eq!(to_str(&vec!['a', 'é', 'z']), "aéz".to_string());
}
