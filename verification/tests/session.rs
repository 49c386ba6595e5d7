use sudoku_avr::errors::ContentError;
use sudoku_avr::session::{parse_argument, split_words, Command, Session};

#[test]
fn words_are_cut_at_spaces() {
    let none: Vec<Vec<u8>> = Vec::new();
    assert_eq!(split_words(b""), none);
    assert_eq!(split_words(b" \t\r\n\x0c"), none);
    assert_eq!(split_words(b"fill"), vec![b"fill".to_vec()]);
    assert_eq!(
        split_words(b"  fill 1\t22   3\n"),
        vec![b"fill".to_vec(), b"1".to_vec(), b"22".to_vec(), b"3".to_vec()]
    );
    assert_eq!(split_words(b"a b"), vec![b"a".to_vec(), b"b".to_vec()]);
    // A vertical tab is no space.
    assert_eq!(split_words(b"a\x0bb"), vec![b"a\x0bb".to_vec()]);
}

#[test]
fn split_words_agrees_with_std() {
    for line in ["", "x", " x", "x ", "at\n", "fill 1 2 3\r\n", "  debug\t4   5  ", "? help", "a\u{a0}b c"] {
        let expected: Vec<Vec<u8>> =
            line.split_ascii_whitespace().map(|w| w.as_bytes().to_vec()).collect();
        assert_eq!(split_words(line.as_bytes()), expected);
    }
}

#[test]
fn arguments_are_numbers_from_one_to_nine() {
    for v in 1..=9u8 {
        assert_eq!(parse_argument(v.to_string().as_bytes()), Some(v));
    }
    assert_eq!(parse_argument(b"+7"), Some(7));
    assert_eq!(parse_argument(b"007"), Some(7));
    assert_eq!(parse_argument(b"00000000000000000000000000000009"), Some(9));
}

#[test]
fn arguments_out_of_range_are_refused() {
    for word in [
        &b""[..], b"0", b"10", b"11", b"19", b"90", b"255", b"256", b"1000", b"-1", b"+", b"++1",
        b"1+", b"a", b"1a", b" 1", b"1.0", b"0x1", b"99999999999999999999999999",
    ] {
        assert_eq!(parse_argument(word), None);
    }
}

#[test]
fn parse_argument_agrees_with_std_within_range() {
    for word in ["0", "1", "5", "9", "10", "+3", "03", "300", "-2", "", "+", "7 "] {
        let expected = word.parse::<u8>().ok().filter(|v| (1..=9).contains(v));
        assert_eq!(parse_argument(word.as_bytes()), expected);
    }
}

#[test]
fn plain_commands() {
    let s = Session::new(false);
    assert_eq!(s.interpret(""), Ok(Command::Nothing));
    assert_eq!(s.interpret("  \n"), Ok(Command::Nothing));
    assert_eq!(s.interpret("at\n"), Ok(Command::At));
    assert_eq!(s.interpret("clear\n"), Ok(Command::Clear));
    assert_eq!(s.interpret("break\n"), Ok(Command::Break));
    assert_eq!(s.interpret("exit\n"), Ok(Command::Exit));
    assert_eq!(s.interpret("solution\n"), Ok(Command::Solution));
    assert_eq!(s.interpret("unsolved\n"), Ok(Command::Unsolved));
    assert_eq!(s.interpret("help\n"), Ok(Command::Help));
    assert_eq!(s.interpret("?\n"), Ok(Command::Help));
    assert_eq!(s.interpret("export\n"), Ok(Command::Export));
    assert_eq!(s.interpret("  at   now\n"), Ok(Command::At));
}

#[test]
fn unknown_commands() {
    let s = Session::new(true);
    for line in ["AT\n", "att\n", "a\n", "fil 1 2 3\n", "play!\n", "??\n", "1 2 3\n"] {
        assert_eq!(s.interpret(line), Err(ContentError::UnknownCommand));
    }
}

#[test]
fn play_needs_a_downloaded_board() {
    assert_eq!(Session::new(false).interpret("play\n"), Err(ContentError::NoBoardDownloaded));
    assert_eq!(Session::new(true).interpret("play\n"), Ok(Command::Play));
}

#[test]
fn download_is_refused_while_a_game_runs() {
    assert_eq!(Session::new(true).interpret("download\n"), Err(ContentError::GameRunning));
    assert_eq!(Session::new(false).interpret("download\n"), Ok(Command::Download));
}

#[test]
fn session_remembers_download_and_clear() {
    let mut s = Session::new(false);
    s.completed(&Command::At);
    s.completed(&Command::Play);
    assert!(!s.downloaded);
    s.completed(&Command::Download);
    assert!(s.downloaded);
    assert_eq!(s.interpret("play"), Ok(Command::Play));
    assert_eq!(s.interpret("download"), Err(ContentError::GameRunning));
    s.completed(&Command::Fill { x: 1, y: 1, value: 1 });
    s.completed(&Command::Break);
    assert!(s.downloaded);
    s.completed(&Command::Clear);
    assert!(!s.downloaded);
    assert_eq!(s.interpret("play"), Err(ContentError::NoBoardDownloaded));
}

#[test]
fn fill_takes_three_numbers() {
    let s = Session::new(false);
    assert_eq!(s.interpret("fill 1 2 3\n"), Ok(Command::Fill { x: 1, y: 2, value: 3 }));
    assert_eq!(s.interpret("fill 9 9 9"), Ok(Command::Fill { x: 9, y: 9, value: 9 }));
    assert_eq!(s.interpret("fill\n"), Err(ContentError::BadArguments));
    assert_eq!(s.interpret("fill 1 2\n"), Err(ContentError::BadArguments));
    assert_eq!(s.interpret("fill 1 2 3 4\n"), Err(ContentError::UnknownCommand));
    for line in ["fill 0 1 1", "fill 1 0 1", "fill 1 1 0", "fill 10 1 1", "fill 1 x 1", "fill 1 1 -1", "fill a b c"] {
        assert_eq!(s.interpret(line), Err(ContentError::OutOfRange));
    }
}

#[test]
fn debug_takes_two_numbers() {
    let s = Session::new(false);
    assert_eq!(s.interpret("debug 4 7\n"), Ok(Command::Debug { x: 4, y: 7 }));
    assert_eq!(s.interpret("debug\n"), Err(ContentError::BadArguments));
    assert_eq!(s.interpret("debug 1\n"), Err(ContentError::BadArguments));
    assert_eq!(s.interpret("debug 1 2 3\n"), Err(ContentError::UnknownCommand));
    for line in ["debug 0 1", "debug 1 0", "debug 10 1", "debug 1 256", "debug x y"] {
        assert_eq!(s.interpret(line), Err(ContentError::OutOfRange));
    }
}
