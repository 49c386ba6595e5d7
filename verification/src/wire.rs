//! The bytes that go over the serial link: the fixed command tokens and the
//! six-byte records that carry one square each.

use crate::errors::{ContentError, LinkError};
use crate::grid::values_of;
use crate::puzzle::SudokuAvr;
use vstd::prelude::*;

verus! {

/// The device's acknowledgement: `OK`, carriage return, line feed.
pub const OK: [u8; 4] = [0x4f, 0x4b, 0x0d, 0x0a];

/// Attention: asks whether the device is there.
pub const AT: [u8; 4] = [0x41, 0x54, 0x0d, 0x0a];

/// Done: the device's mark that the game, or the readback, is over.
pub const DONE: [u8; 3] = [0x44, 0x0d, 0x0a];

/// Clear: empties the device's board.
pub const CLEAR: [u8; 3] = [0x43, 0x0d, 0x0a];

/// Transfer: acknowledges one square of a readback.
pub const T: [u8; 3] = [0x54, 0x0d, 0x0a];

/// Break: stops the game.
pub const BREAK: [u8; 3] = [0x42, 0x0d, 0x0a];

/// Play: starts the game.
pub const PLAY: [u8; 3] = [0x50, 0x0d, 0x0a];

/// Save: asks the device to send its board back.
pub const SAVE: [u8; 3] = [0x53, 0x0d, 0x0a];

/// Milliseconds to wait after a frame has been written and flushed: the
/// device cannot take frames back to back.
pub const SETTLE_MILLIS: u64 = 50;

/// The record that sets the square in row `row` and column `col`, both
/// counted from 0, to `value`: the letter `N`, the column and the row
/// counted from 1 and the value, each as an ASCII digit, then carriage
/// return and line feed.
pub open spec fn record_bytes(row: int, col: int, value: int) -> Seq<u8> {
    seq![0x4eu8, (col + 0x31) as u8, (row + 0x31) as u8, (value + 0x30) as u8, 0x0du8, 0x0au8]
}

/// A byte that is an ASCII digit from `low` up to `'9'`.
pub open spec fn is_digit_from(b: u8, low: u8) -> bool {
    low <= b <= 0x39
}

/// The square that a record from the device carries, as row, column and
/// value with row and column counted from 0. A record has six bytes; its
/// second and third are digits from 1 to 9, its fourth a digit from 0 to 9.
/// The first byte and the last two are not looked at.
pub open spec fn record_square(data: Seq<u8>) -> Option<(u8, u8, u8)> {
    if data.len() == 6 && is_digit_from(data[1], 0x31) && is_digit_from(data[2], 0x31)
        && is_digit_from(data[3], 0x30) {
        Some(((data[2] - 0x31) as u8, (data[1] - 0x31) as u8, (data[3] - 0x30) as u8))
    } else {
        None
    }
}

/// The data starts with the done mark.
pub open spec fn starts_with_done(data: Seq<u8>) -> bool {
    data.len() >= 3 && data.take(3) == DONE@
}

/// The records that download the first `n` squares of a board, one for
/// each square that holds a number, in row-major order.
pub open spec fn records_upto(values: Seq<u8>, n: int) -> Seq<Seq<u8>>
    decreases n,
{
    if n <= 0 {
        Seq::empty()
    } else if values[n - 1] != 0 {
        records_upto(values, n - 1).push(
            record_bytes((n - 1) / 9, (n - 1) % 9, values[n - 1] as int),
        )
    } else {
        records_upto(values, n - 1)
    }
}

/// Writes the record for one square.
pub fn clue_record(row: u8, col: u8, value: u8) -> (record: [u8; 6])
    requires
        row < 9,
        col < 9,
        1 <= value <= 9,
    ensures
        record@ == record_bytes(row as int, col as int, value as int),
{
    let record = [0x4e, col + 0x31, row + 0x31, value + 0x30, 0x0d, 0x0a];
    assert(record@ =~= record_bytes(row as int, col as int, value as int));
    record
}

/// Reads the square out of a record that the device sent.
pub fn decode_record(data: &[u8]) -> (square: Option<(u8, u8, u8)>)
    ensures
        square == record_square(data@),
        square matches Some((row, col, value)) ==> row < 9 && col < 9 && value <= 9,
{
    if data.len() != 6 {
        return None;
    }
    let col = data[1];
    let row = data[2];
    let value = data[3];
    if 0x31 <= col && col <= 0x39 && 0x31 <= row && row <= 0x39 && 0x30 <= value && value <= 0x39 {
        Some((row - 0x31, col - 0x31, value - 0x30))
    } else {
        None
    }
}

/// Whether the data that came begins with the done mark.
pub fn is_done(data: &[u8]) -> (done: bool)
    ensures
        done == starts_with_done(data@),
{
    if data.len() < 3 {
        return false;
    }
    let done = data[0] == DONE[0] && data[1] == DONE[1] && data[2] == DONE[2];
    proof {
        if done {
            assert(data@.take(3) =~= DONE@);
        } else {
            assert(data@.take(3)[0] == data@[0]);
            assert(data@.take(3)[1] == data@[1]);
            assert(data@.take(3)[2] == data@[2]);
        }
    }
    done
}

/// Holds what the device answered against what was expected. Anything but
/// the very bytes expected is a mismatch, which carries what came.
pub fn wait_response(data: Vec<u8>, response: &[u8]) -> (outcome: Result<(), LinkError>)
    ensures
        outcome is Ok <==> data@ == response@,
        outcome is Err ==> outcome == Err::<(), LinkError>(LinkError::ProtocolMismatch(data)),
{
    if same_bytes(data.as_slice(), response) {
        Ok(())
    } else {
        Err(LinkError::ProtocolMismatch(data))
    }
}

/// Whether two runs of bytes are the same.
pub fn same_bytes(a: &[u8], b: &[u8]) -> (same: bool)
    ensures
        same == (a@ == b@),
{
    if a.len() != b.len() {
        return false;
    }
    let mut i: usize = 0;
    while i < a.len()
        invariant
            i <= a.len(),
            a.len() == b.len(),
            forall|j: int| 0 <= j < i ==> a@[j] == b@[j],
        decreases a.len() - i,
    {
        if a[i] != b[i] {
            return false;
        }
        i = i + 1;
    }
    assert(a@ =~= b@);
    true
}

/// How many bytes to read: the number asked for, or, where that is not
/// positive, as many as the port says are waiting.
pub fn read_size(size: i32, waiting: u32) -> (n: usize)
    ensures
        n == if size <= 0 {
            waiting as int
        } else {
            size as int
        },
{
    if size <= 0 {
        waiting as usize
    } else {
        size as usize
    }
}

/// The frame of the `fill` command, which sets one square on the device.
/// `x` is the column, `y` the row, `value` the number, each from 1 to 9.
pub fn fill_frame(x: u8, y: u8, value: u8) -> (frame: Result<[u8; 6], ContentError>)
    ensures
        frame is Ok <==> 1 <= x <= 9 && 1 <= y <= 9 && 1 <= value <= 9,
        frame matches Ok(bytes) ==> bytes@ == record_bytes(y - 1, x - 1, value as int),
        frame matches Err(e) ==> e == ContentError::OutOfRange,
{
    if 1 <= x && x <= 9 && 1 <= y && y <= 9 && 1 <= value && value <= 9 {
        Ok(clue_record(y - 1, x - 1, value))
    } else {
        Err(ContentError::OutOfRange)
    }
}

/// The frame of the `debug` command, which asks the device for one square:
/// the letter `D`, the column and the row as ASCII digits, carriage return,
/// line feed.
pub fn debug_frame(x: u8, y: u8) -> (frame: Result<[u8; 5], ContentError>)
    ensures
        frame is Ok <==> 1 <= x <= 9 && 1 <= y <= 9,
        frame matches Ok(bytes) ==> bytes@ == seq![
            0x44u8,
            (x + 0x30) as u8,
            (y + 0x30) as u8,
            0x0du8,
            0x0au8,
        ],
        frame matches Err(e) ==> e == ContentError::OutOfRange,
{
    if 1 <= x && x <= 9 && 1 <= y && y <= 9 {
        let bytes = [0x44, x + 0x30, y + 0x30, 0x0d, 0x0a];
        assert(bytes@ =~= seq![0x44u8, (x + 0x30) as u8, (y + 0x30) as u8, 0x0du8, 0x0au8]);
        Ok(bytes)
    } else {
        Err(ContentError::OutOfRange)
    }
}

impl SudokuAvr {
    /// The records that download the board to the device: one for every
    /// square that holds a number, row by row. The device acknowledges each
    /// with `OK`.
    pub fn send_board(&self) -> (records: Vec<[u8; 6]>)
        ensures
            records@.map_values(|r: [u8; 6]| r@) == records_upto(values_of(self.board()), 81),
            records@.len() == self.filled(),
            self.wf(),
    {
        let board = self.board_grid();
        let filled = self.filled_count();
        let mut records: Vec<[u8; 6]> = Vec::new();
        let mut k: usize = 0;
        let ghost values = values_of(board);
        while k < 81
            invariant
                k <= 81,
                self.wf(),
                board == self.board(),
                values == values_of(board),
                records@.map_values(|r: [u8; 6]| r@) == records_upto(values, k as int),
                records@.len() == crate::grid::count_true(
                    crate::grid::filled_mask(board).take(k as int),
                ),
            decreases 81 - k,
        {
            let value = board[k / 9][k % 9].value;
            proof {
                assert(value == values[k as int]);
                assert(1 <= values_of(self.solution())[k as int] <= 9);
                crate::grid::lemma_count_take_next(crate::grid::filled_mask(board), k as int);
            }
            let ghost before = records@;
            if value != 0 {
                records.push(clue_record((k / 9) as u8, (k % 9) as u8, value));
                assert(records@.map_values(|r: [u8; 6]| r@) =~= before.map_values(
                    |r: [u8; 6]| r@,
                ).push(record_bytes(k as int / 9, k as int % 9, value as int)));
            }
            k = k + 1;
        }
        assert(crate::grid::filled_mask(board).take(81) =~= crate::grid::filled_mask(board));
        records
    }
}

/// A record, once decoded, gives back the square it was written for.
pub proof fn lemma_record_round_trip(row: int, col: int, value: int)
    requires
        0 <= row < 9,
        0 <= col < 9,
        1 <= value <= 9,
    ensures
        record_square(record_bytes(row, col, value)) == Some((row as u8, col as u8, value as u8)),
        !starts_with_done(record_bytes(row, col, value)),
{
    let data = record_bytes(row, col, value);
    assert(data.take(3)[0] == 0x4e);
}

} // verus!
