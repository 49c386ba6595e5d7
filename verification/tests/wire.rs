use sudoku_avr::errors::{ContentError, LinkError};
use sudoku_avr::wire::{
    clue_record, debug_frame, decode_record, fill_frame, is_done, read_size, same_bytes,
    wait_response, AT, BREAK, CLEAR, DONE, OK, PLAY, SAVE, T,
};
use sudoku_avr::{Difficulty, SudokuAvr};

const PUZZLE: &str =
    "003020600900305001001806400008102900700000008006708200002609500800203009005010300";

#[test]
fn tokens_are_the_letters_with_a_line_end() {
    assert_eq!(&OK, b"OK\r\n");
    assert_eq!(&AT, b"AT\r\n");
    assert_eq!(&DONE, b"D\r\n");
    assert_eq!(&CLEAR, b"C\r\n");
    assert_eq!(&T, b"T\r\n");
    assert_eq!(&BREAK, b"B\r\n");
    assert_eq!(&PLAY, b"P\r\n");
    assert_eq!(&SAVE, b"S\r\n");
}

#[test]
fn clue_record_layout() {
    // Column first, then row, both counted from 1.
    assert_eq!(&clue_record(0, 0, 5), b"N115\r\n");
    assert_eq!(&clue_record(2, 7, 9), b"N839\r\n");
    assert_eq!(&clue_record(8, 8, 1), b"N991\r\n");
}

#[test]
fn record_round_trip_for_every_square_and_value() {
    for row in 0..9u8 {
        for col in 0..9u8 {
            for value in 1..=9u8 {
                let record = clue_record(row, col, value);
                assert_eq!(decode_record(&record), Some((row, col, value)));
                assert!(!is_done(&record));
            }
        }
    }
}

#[test]
fn decode_record_reads_row_column_value() {
    assert_eq!(decode_record(b"N259\r\n"), Some((4, 1, 9)));
    // The tag and the line end are not looked at; an empty square is 0.
    assert_eq!(decode_record(b"X110zz"), Some((0, 0, 0)));
}

#[test]
fn decode_record_refuses_what_is_no_record() {
    for data in [
        &b""[..],
        b"N11",
        b"N115\r",
        b"N115\r\n\n",
        b"N015\r\n",
        b"N105\r\n",
        b"N:15\r\n",
        b"N1:5\r\n",
        b"N11:\r\n",
        b"N11/\r\n",
        b"\0\0\0\0\0\0",
    ] {
        assert_eq!(decode_record(data), None);
    }
}

#[test]
fn done_mark_is_found_at_the_start() {
    assert!(is_done(b"D\r\n"));
    assert!(is_done(b"D\r\n\0\0\0"));
    assert!(!is_done(b"D\r"));
    assert!(!is_done(b"d\r\n"));
    assert!(!is_done(b"OK\r\n"));
    assert!(!is_done(b""));
}

#[test]
fn wait_response_accepts_the_expected_bytes() {
    assert_eq!(wait_response(b"OK\r\n".to_vec(), &OK), Ok(()));
    assert_eq!(wait_response(b"D\r\n".to_vec(), &DONE), Ok(()));
    assert_eq!(wait_response(Vec::new(), &[]), Ok(()));
}

#[test]
fn wait_response_keeps_what_came_instead() {
    for data in [&b"KO\r\n"[..], b"OK\r", b"OK\r\n\n", b"", b"\0\0\0\0"] {
        assert_eq!(
            wait_response(data.to_vec(), &OK),
            Err(LinkError::ProtocolMismatch(data.to_vec()))
        );
    }
}

#[test]
fn same_bytes_compares_all_bytes() {
    assert!(same_bytes(b"abc", b"abc"));
    assert!(same_bytes(b"", b""));
    assert!(!same_bytes(b"abc", b"abd"));
    assert!(!same_bytes(b"abc", b"ab"));
    assert!(!same_bytes(b"ab", b"abc"));
}

#[test]
fn read_size_asks_the_port_when_not_positive() {
    assert_eq!(read_size(6, 100), 6);
    assert_eq!(read_size(1, 0), 1);
    assert_eq!(read_size(0, 17), 17);
    assert_eq!(read_size(-1, 3), 3);
    assert_eq!(read_size(i32::MAX, 3), i32::MAX as usize);
}

#[test]
fn fill_frame_checks_the_range() {
    assert_eq!(fill_frame(1, 2, 3).unwrap(), *b"N123\r\n");
    assert_eq!(fill_frame(9, 9, 9).unwrap(), *b"N999\r\n");
    for (x, y, v) in [(0, 1, 1), (1, 0, 1), (1, 1, 0), (10, 1, 1), (1, 10, 1), (1, 1, 10), (255, 255, 255)] {
        assert_eq!(fill_frame(x, y, v), Err(ContentError::OutOfRange));
    }
}

#[test]
fn debug_frame_checks_the_range() {
    assert_eq!(debug_frame(4, 7).unwrap(), *b"D47\r\n");
    assert_eq!(debug_frame(1, 9).unwrap(), *b"D19\r\n");
    for (x, y) in [(0, 1), (1, 0), (10, 1), (1, 10)] {
        assert_eq!(debug_frame(x, y), Err(ContentError::OutOfRange));
    }
}

#[test]
fn send_board_has_one_record_for_each_number() {
    let p = SudokuAvr::new_from_str(PUZZLE, Difficulty::Easy).unwrap();
    let records = p.send_board();
    assert_eq!(records.len(), 32);
    assert_eq!(&records[0], b"N313\r\n");
    assert_eq!(&records[1], b"N512\r\n");
    assert_eq!(&records[2], b"N716\r\n");
    assert_eq!(&records[3], b"N129\r\n");
    assert_eq!(&records[31], b"N793\r\n");
    let board = p.board_grid();
    let mut rebuilt = [[0u8; 9]; 9];
    for r in &records {
        let (row, col, value) = decode_record(r).unwrap();
        rebuilt[row as usize][col as usize] = value;
    }
    for i in 0..9 {
        for j in 0..9 {
            assert_eq!(rebuilt[i][j], board[i][j].value);
        }
    }
}
