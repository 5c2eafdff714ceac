use manbo::repl::{candidate_at, parse_command, parse_usize, split_cursor, ReplCommand};

#[test]
fn lines_are_read_as_commands() {
    assert_eq!(parse_command("   "), ReplCommand::Skip);
    assert_eq!(parse_command(":q"), ReplCommand::Quit);
    assert_eq!(parse_command(" :quit "), ReplCommand::Quit);
    assert_eq!(parse_command("3"), ReplCommand::Commit(3));
    assert_eq!(parse_command("+12"), ReplCommand::Commit(12));
    assert_eq!(parse_command(":raw"), ReplCommand::Raw);
    assert_eq!(parse_command(":del 2"), ReplCommand::Forget(2));
    assert_eq!(parse_command(":del  7 "), ReplCommand::Forget(7));
    assert_eq!(parse_command(":del x"), ReplCommand::Query(":del x".to_owned()));
    assert_eq!(parse_command(" nihao "), ReplCommand::Query("nihao".to_owned()));
}

#[test]
fn numbers_parse_as_std_does() {
    for text in ["0", "42", "+7", "007", "18446744073709551615", "", "+", "-1", "1a", " 1", "18446744073709551616"] {
        assert_eq!(parse_usize(text), text.parse::<usize>().ok(), "{text:?}");
    }
}

#[test]
fn candidates_are_counted_from_one() {
    assert_eq!(candidate_at(0, 3), None);
    assert_eq!(candidate_at(1, 3), Some(0));
    assert_eq!(candidate_at(3, 3), Some(2));
    assert_eq!(candidate_at(4, 3), None);
}

#[test]
fn the_bar_marks_the_cursor() {
    assert_eq!(split_cursor("ni|hao"), ("nihao".to_owned(), Some(2)));
    assert_eq!(split_cursor("nihao"), ("nihao".to_owned(), None));
    assert_eq!(split_cursor("|a|b"), ("ab".to_owned(), Some(0)));
}
