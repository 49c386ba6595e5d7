use sudoku_avr::errors::LinkError;
use sudoku_avr::grid::{empty_grid, Grid};
use sudoku_avr::round::{Action, Event, Frame, Round, Stage, Step, Verdict};
use sudoku_avr::tournament::round_outcome;
use sudoku_avr::wire::clue_record;
use sudoku_avr::{Difficulty, SudokuAvr};

const PUZZLE: &str =
    "003020600900305001001806400008102900700000008006708200002609500800203009005010300";

fn puzzle() -> SudokuAvr {
    SudokuAvr::new_from_str(PUZZLE, Difficulty::Easy).unwrap()
}

fn ok() -> Event {
    Event::Received(b"OK\r\n".to_vec())
}

fn solved_records(p: &SudokuAvr) -> Vec<Vec<u8>> {
    let solution = p.solution_grid();
    let mut out = Vec::new();
    for i in 0..9u8 {
        for j in 0..9u8 {
            out.push(clue_record(i, j, solution[i as usize][j as usize].value).to_vec());
        }
    }
    out
}

// Plays the readback of `records` and returns the round with what it sent.
fn read_back(p: SudokuAvr, records: &[Vec<u8>]) -> (Round, Vec<Frame>, Action) {
    let (mut round, first) = Round::start(p, Stage::Readback, Stage::Readback);
    let mut sent = Vec::new();
    assert_eq!(first, Action::Send(Frame::Save));
    sent.push(Frame::Save);
    assert_eq!(round.step(Event::Sent, 0), Action::Receive(6));
    for r in records {
        let action = round.step(Event::Received(r.clone()), 0);
        assert_eq!(action, Action::Send(Frame::Transfer));
        sent.push(Frame::Transfer);
        assert_eq!(round.step(Event::Sent, 0), Action::Receive(6));
    }
    let action = round.step(Event::Received(b"D\r\n\0\0\0".to_vec()), 0);
    assert_eq!(action, Action::Send(Frame::Okay));
    sent.push(Frame::Okay);
    assert_eq!(round.step(Event::Sent, 0), Action::Drain);
    let last = round.step(Event::Drained, 0);
    (round, sent, last)
}

#[test]
fn frames_have_the_bytes_of_their_tokens() {
    assert_eq!(Frame::Attention.bytes(), b"AT\r\n");
    assert_eq!(Frame::Clear.bytes(), b"C\r\n");
    assert_eq!(Frame::Play.bytes(), b"P\r\n");
    assert_eq!(Frame::Save.bytes(), b"S\r\n");
    assert_eq!(Frame::Transfer.bytes(), b"T\r\n");
    assert_eq!(Frame::Okay.bytes(), b"OK\r\n");
    assert_eq!(Frame::Clue(*b"N123\r\n").bytes(), b"N123\r\n");
}

#[test]
fn stages_are_ranked_in_order_of_play() {
    assert_eq!(Stage::Attention.rank(), 0);
    assert_eq!(Stage::Clear.rank(), 1);
    assert_eq!(Stage::Download.rank(), 2);
    assert_eq!(Stage::Play.rank(), 3);
    assert_eq!(Stage::Readback.rank(), 4);
}

#[test]
fn download_mismatch_is_fatal() {
    let (mut round, first) = Round::start(puzzle(), Stage::Attention, Stage::Readback);
    assert_eq!(first, Action::Send(Frame::Attention));
    assert_eq!(round.step(Event::Sent, 0), Action::Receive(4));
    assert_eq!(round.step(ok(), 0), Action::Send(Frame::Clear));
    assert_eq!(round.step(Event::Sent, 0), Action::Receive(4));
    assert_eq!(round.step(ok(), 0), Action::Send(Frame::Clue(*b"N313\r\n")));
    assert_eq!(round.step(Event::Sent, 0), Action::Receive(4));
    let garbage = b"\x13\x37zz".to_vec();
    assert_eq!(
        round.step(Event::Received(garbage.clone()), 0),
        Action::Abort(LinkError::ProtocolMismatch(garbage))
    );
    assert_eq!(round.step, Step::Failed);
    assert_eq!(round.stage, Stage::Download);
    assert_eq!(round_outcome(&round), None);
    // Nothing is tried again: the round stays failed.
    assert_eq!(round.step(ok(), 0), Action::Abort(LinkError::TransportIo));
    assert_eq!(round.step(Event::Sent, 0), Action::Abort(LinkError::TransportIo));
    assert_eq!(round.step, Step::Failed);
}

#[test]
fn readback_loop_acknowledges_each_record() {
    let records = vec![b"N115\r\n".to_vec(), b"N927\r\n".to_vec(), b"N593\r\n".to_vec()];
    let (round, sent, last) = read_back(puzzle(), &records);
    assert_eq!(last, Action::Finish);
    assert_eq!(
        sent,
        vec![Frame::Save, Frame::Transfer, Frame::Transfer, Frame::Transfer, Frame::Okay]
    );
    let mut expected: Grid = empty_grid();
    expected[0][0].value = 5;
    expected[1][8].value = 7;
    expected[8][4].value = 3;
    assert_eq!(round.player, expected);
    let filled = round.player.iter().flatten().filter(|c| c.value != 0).count();
    assert_eq!(filled, 3);
    assert_eq!(round.verdict, Verdict::Invalid);
    assert_eq!(round.step, Step::Finished);
    assert_eq!(round_outcome(&round), Some((0, false)));
}

#[test]
fn readback_of_the_solution_is_verified() {
    let p = puzzle();
    let (round, sent, last) = read_back(p, &solved_records(&p));
    assert_eq!(last, Action::Finish);
    assert_eq!(sent.len(), 83);
    assert_eq!(round.verdict, Verdict::Verified);
    assert!(p.check(&round.player));
    assert_eq!(round_outcome(&round), Some((0, true)));
}

#[test]
fn readback_with_one_wrong_square_is_invalid() {
    let p = puzzle();
    let mut records = solved_records(&p);
    records[40][3] = if records[40][3] == b'9' { b'1' } else { records[40][3] + 1 };
    let (round, _, last) = read_back(p, &records);
    assert_eq!(last, Action::Finish);
    assert_eq!(round.verdict, Verdict::Invalid);
}

#[test]
fn readback_refuses_a_broken_record() {
    let (mut round, _) = Round::start(puzzle(), Stage::Readback, Stage::Readback);
    assert_eq!(round.step(Event::Sent, 0), Action::Receive(6));
    let broken = b"N0a5\r\n".to_vec();
    assert_eq!(
        round.step(Event::Received(broken.clone()), 0),
        Action::Abort(LinkError::ProtocolMismatch(broken))
    );
    assert_eq!(round.player, empty_grid());
    // A failure while the board is read back counts as a board not solved.
    assert_eq!(round_outcome(&round), Some((0, false)));
}

#[test]
fn readback_timeout_is_fatal() {
    let (mut round, _) = Round::start(puzzle(), Stage::Readback, Stage::Readback);
    assert_eq!(round.step(Event::Sent, 0), Action::Receive(6));
    assert_eq!(round.step(Event::TimedOut, 0), Action::Abort(LinkError::Timeout));
    assert_eq!(round.step, Step::Failed);
}

#[test]
fn play_waits_for_done_and_measures_the_time() {
    let (mut round, first) = Round::start(puzzle(), Stage::Play, Stage::Play);
    assert_eq!(first, Action::Send(Frame::Play));
    assert_eq!(round.step(Event::Sent, 1_000), Action::Receive(4));
    assert_eq!(round.started, 1_000);
    assert_eq!(round.step(ok(), 1_500), Action::Receive(3));
    assert_eq!(round.step, Step::Polling);
    // Timeouts and stray bytes are swallowed while the player thinks.
    for now in 2_000..2_050 {
        assert_eq!(round.step(Event::TimedOut, now), Action::Receive(3));
        assert_eq!(round.step(Event::Received(b"\0\0\0".to_vec()), now), Action::Receive(3));
        assert_eq!(round.step(Event::Received(b"OK\r".to_vec()), now), Action::Receive(3));
        assert_eq!(round.step, Step::Polling);
    }
    assert_eq!(round.step(Event::Received(b"D\r\n".to_vec()), 61_000), Action::Finish);
    assert_eq!(round.elapsed, 60_000);
    assert_eq!(round.step, Step::Finished);
    assert_eq!(round.verdict, Verdict::Unknown);
}

#[test]
fn clock_running_backwards_counts_as_no_time() {
    let (mut round, _) = Round::start(puzzle(), Stage::Play, Stage::Play);
    round.step(Event::Sent, 5_000);
    round.step(ok(), 5_001);
    assert_eq!(round.step(Event::Received(b"D\r\n".to_vec()), 4_000), Action::Finish);
    assert_eq!(round.elapsed, 0);
}

#[test]
fn play_mismatch_and_timeout_are_fatal_before_polling() {
    let (mut round, _) = Round::start(puzzle(), Stage::Play, Stage::Play);
    round.step(Event::Sent, 0);
    assert_eq!(round.step(Event::TimedOut, 1), Action::Abort(LinkError::Timeout));

    let (mut round, _) = Round::start(puzzle(), Stage::Play, Stage::Play);
    round.step(Event::Sent, 0);
    assert_eq!(
        round.step(Event::Received(b"D\r\n".to_vec()), 1),
        Action::Abort(LinkError::ProtocolMismatch(b"D\r\n".to_vec()))
    );
}

#[test]
fn transport_failure_is_fatal_everywhere() {
    let (mut round, _) = Round::start(puzzle(), Stage::Attention, Stage::Readback);
    assert_eq!(round.step(Event::Failed, 0), Action::Abort(LinkError::TransportIo));
    let (mut round, _) = Round::start(puzzle(), Stage::Play, Stage::Play);
    round.step(Event::Sent, 0);
    round.step(ok(), 0);
    assert_eq!(round.step(Event::Failed, 0), Action::Abort(LinkError::TransportIo));
    assert_eq!(round.step, Step::Failed);
}

#[test]
fn an_event_out_of_turn_fails_the_round() {
    let (mut round, _) = Round::start(puzzle(), Stage::Attention, Stage::Attention);
    assert_eq!(round.step(ok(), 0), Action::Abort(LinkError::TransportIo));
    let (mut round, _) = Round::start(puzzle(), Stage::Attention, Stage::Attention);
    assert_eq!(round.step(Event::Drained, 0), Action::Abort(LinkError::TransportIo));
}

#[test]
fn single_stage_rounds() {
    let (mut round, first) = Round::start(puzzle(), Stage::Attention, Stage::Attention);
    assert_eq!(first, Action::Send(Frame::Attention));
    assert_eq!(round.step(Event::Sent, 0), Action::Receive(4));
    assert_eq!(round.step(ok(), 0), Action::Finish);

    let (mut round, first) = Round::start(puzzle(), Stage::Clear, Stage::Clear);
    assert_eq!(first, Action::Send(Frame::Clear));
    assert_eq!(round.step(Event::Sent, 0), Action::Receive(4));
    assert_eq!(round.step(ok(), 0), Action::Finish);
}

#[test]
fn download_sends_every_clue_and_waits_for_each_ok() {
    let p = puzzle();
    let records = p.send_board();
    let (mut round, mut action) = Round::start(p, Stage::Download, Stage::Download);
    for r in &records {
        assert_eq!(action, Action::Send(Frame::Clue(*r)));
        assert_eq!(round.step(Event::Sent, 0), Action::Receive(4));
        action = round.step(ok(), 0);
    }
    assert_eq!(action, Action::Finish);
    assert_eq!(round.step, Step::Finished);
}

// A device that answers as it should and hands back the solution.
fn play_full_round(p: SudokuAvr, answers: &[Vec<u8>]) -> (Round, Vec<Frame>, usize) {
    let (mut round, mut action) = Round::start(p, Stage::Attention, Stage::Readback);
    let mut sent = Vec::new();
    let mut drains = 0;
    let mut clock = 0u64;
    let mut queue: std::collections::VecDeque<Vec<u8>> = std::collections::VecDeque::new();
    let mut records = answers.iter();
    loop {
        clock += 50;
        let event = match action {
            Action::Send(frame) => {
                sent.push(frame);
                match frame {
                    Frame::Play => {
                        queue.push_back(b"OK\r\n".to_vec());
                        queue.push_back(b"\0\0\0".to_vec());
                        queue.push_back(b"D\r\n".to_vec());
                    }
                    Frame::Save | Frame::Transfer => match records.next() {
                        Some(r) => queue.push_back(r.clone()),
                        None => queue.push_back(b"D\r\n\0\0\0".to_vec()),
                    },
                    Frame::Okay => {}
                    _ => queue.push_back(b"OK\r\n".to_vec()),
                }
                Event::Sent
            }
            Action::Receive(n) => {
                let data = queue.pop_front().unwrap();
                assert_eq!(data.len(), n);
                Event::Received(data)
            }
            Action::Drain => {
                drains += 1;
                queue.clear();
                Event::Drained
            }
            Action::Finish => break,
            Action::Abort(e) => panic!("round failed: {:?}", e),
        };
        action = round.step(event, clock);
    }
    (round, sent, drains)
}

#[test]
fn full_round_against_a_well_behaved_device() {
    let p = puzzle();
    let (round, sent, drains) = play_full_round(p, &solved_records(&p));
    assert_eq!(round.verdict, Verdict::Verified);
    assert_eq!(round.step, Step::Finished);
    assert_eq!(drains, 2);
    // AT, C, 32 clues, P, S, 81 acknowledgements, OK.
    assert_eq!(sent.len(), 2 + 32 + 1 + 1 + 81 + 1);
    assert_eq!(sent[0], Frame::Attention);
    assert_eq!(sent[1], Frame::Clear);
    assert_eq!(sent[2], Frame::Clue(*b"N313\r\n"));
    assert_eq!(sent[34], Frame::Play);
    assert_eq!(sent[35], Frame::Save);
    assert_eq!(sent[117], Frame::Okay);
    // P is written, OK read, one stray read, then the done mark: three
    // steps of 50 on the stub's clock.
    assert_eq!(round.elapsed, 150);
    assert_eq!(round_outcome(&round), Some((150, true)));
}

#[test]
fn full_round_with_an_unsolved_board_is_invalid() {
    let p = puzzle();
    let (round, _, _) = play_full_round(p, &p.send_board().iter().map(|r| r.to_vec()).collect::<Vec<_>>());
    assert_eq!(round.verdict, Verdict::Invalid);
    assert_eq!(round.player.map(|row| row.map(|c| c.value)), p.board_grid().map(|row| row.map(|c| c.value)));
}
