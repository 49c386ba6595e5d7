//! The decisions of one protocol round. The round does no input or output
//! itself: it says what to do next on the link, is told how that went, and
//! says what to do then.
//!
//! A round is a run of stages: attention, clear, download, play, readback.
//! It can be started at any stage and told to stop after any stage.

use crate::errors::LinkError;
use crate::grid::{cell_at, empty_grid, values_of, Cell, Grid};
use crate::puzzle::SudokuAvr;
use crate::wire::{
    clue_record, decode_record, is_done, record_bytes, record_square, same_bytes, starts_with_done,
    AT, CLEAR, DONE, OK, PLAY, SAVE, T,
};
use vstd::prelude::*;

verus! {

/// The parts of a round, in the order in which they are played.
#[derive(Clone, Copy, Debug, PartialEq, Eq, Structural, PartialOrd, Ord, Hash)]
pub enum Stage {
    /// `AT`, answered with `OK`.
    Attention,
    /// `C`, answered with `OK`.
    Clear,
    /// One record for each clue, each answered with `OK`.
    Download,
    /// `P`, answered with `OK`; then the wait for the done mark.
    Play,
    /// `S`; then the device's squares, one record each, until the done mark.
    Readback,
}

/// What the round is waiting for. A step that ends in `Write` waits for a
/// frame to be written, one that ends in `Reply` for the device's `OK`.
#[derive(Clone, Copy, Debug, PartialEq, Eq, Structural, Hash)]
pub enum Step {
    /// `AT` is being written.
    AttentionWrite,
    /// `AT` is out.
    AttentionReply,
    /// The device is there; `C` is being written.
    ClearWrite,
    /// `C` is out.
    ClearReply,
    /// The device's board is empty; a clue is being written.
    ClueWrite,
    /// A clue is out.
    ClueReply,
    /// The board is on the device; the receive buffer is being emptied.
    DownloadDrain,
    /// `P` is being written.
    PlayWrite,
    /// `P` is out and the clock runs.
    PlayReply,
    /// The game is on: waiting for the done mark, for as long as it takes.
    Polling,
    /// The game is solved; `S` is being written.
    SaveWrite,
    /// Waiting for the next record of the player's board, or the done mark.
    RecordWait,
    /// A record has come; `T` is being written.
    AckWrite,
    /// The done mark has come; `OK` is being written.
    OkWrite,
    /// The player's board is complete; the receive buffer is being emptied.
    ReadbackDrain,
    /// The round is over.
    Finished,
    /// The round has failed.
    Failed,
}

/// How the readback ended.
#[derive(Clone, Copy, Debug, PartialEq, Eq, Structural, Hash)]
pub enum Verdict {
    /// No board has been read back and checked yet.
    Unknown,
    /// The player's board is the solution.
    Verified,
    /// The player's board is not the solution.
    Invalid,
}

/// A message to the device.
#[derive(Clone, Copy, Debug, PartialEq, Eq, Hash)]
pub enum Frame {
    Attention,
    Clear,
    Play,
    Save,
    Transfer,
    Okay,
    /// The record that downloads one clue.
    Clue([u8; 6]),
}

/// What the caller is to do on the link.
#[derive(Clone, Debug, PartialEq, Eq, Hash)]
pub enum Action {
    /// Write the frame, flush, and let the device settle.
    Send(Frame),
    /// Read exactly this many bytes.
    Receive(usize),
    /// Throw away what has piled up in the receive buffer.
    Drain,
    /// Nothing more: the round is over.
    Finish,
    /// Nothing more: the round has failed.
    Abort(LinkError),
}

/// How the last action went.
#[derive(Clone, Debug, PartialEq, Eq, Hash)]
pub enum Event {
    /// The frame was written.
    Sent,
    /// These bytes were read.
    Received(Vec<u8>),
    /// The read timed out.
    TimedOut,
    /// The receive buffer was emptied.
    Drained,
    /// The link could not be written to or read from.
    Failed,
}

/// One round against the device.
#[derive(Clone, Copy, Debug)]
pub struct Round {
    /// What the round is waiting for.
    pub step: Step,
    /// The stage that the round is in, or was in when it ended.
    pub stage: Stage,
    /// The stage after which the round ends.
    pub last: Stage,
    /// The puzzle that is played.
    pub puzzle: SudokuAvr,
    /// The row-major position behind the clue that was downloaded last.
    pub cursor: usize,
    /// The board as the device has sent it back so far.
    pub player: Grid,
    /// The clock reading when `P` had been written.
    pub started: u64,
    /// The time from then until the done mark came; 0 before that.
    pub elapsed: u64,
    /// Whether the board that was read back is the solution.
    pub verdict: Verdict,
}

impl Stage {
    pub open spec fn spec_rank(self) -> int {
        match self {
            Stage::Attention => 0,
            Stage::Clear => 1,
            Stage::Download => 2,
            Stage::Play => 3,
            Stage::Readback => 4,
        }
    }

    /// The place of the stage in a round, from 0.
    pub fn rank(&self) -> (r: u8)
        ensures
            r == self.spec_rank(),
    {
        match self {
            Stage::Attention => 0,
            Stage::Clear => 1,
            Stage::Download => 2,
            Stage::Play => 3,
            Stage::Readback => 4,
        }
    }
}

impl Frame {
    /// The bytes of the frame as they go over the link.
    pub open spec fn spec_bytes(self) -> Seq<u8> {
        match self {
            Frame::Attention => AT@,
            Frame::Clear => CLEAR@,
            Frame::Play => PLAY@,
            Frame::Save => SAVE@,
            Frame::Transfer => T@,
            Frame::Okay => OK@,
            Frame::Clue(record) => record@,
        }
    }

    pub fn bytes(&self) -> (bytes: Vec<u8>)
        ensures
            bytes@ == self.spec_bytes(),
    {
        match self {
            Frame::Attention => copy_bytes(&AT),
            Frame::Clear => copy_bytes(&CLEAR),
            Frame::Play => copy_bytes(&PLAY),
            Frame::Save => copy_bytes(&SAVE),
            Frame::Transfer => copy_bytes(&T),
            Frame::Okay => copy_bytes(&OK),
            Frame::Clue(record) => copy_bytes(record),
        }
    }
}

fn copy_bytes(bytes: &[u8]) -> (copy: Vec<u8>)
    ensures
        copy@ == bytes@,
{
    let mut copy: Vec<u8> = Vec::new();
    let mut i: usize = 0;
    while i < bytes.len()
        invariant
            i <= bytes.len(),
            copy@ == bytes@.take(i as int),
        decreases bytes.len() - i,
    {
        copy.push(bytes[i]);
        assert(copy@ =~= bytes@.take(i + 1));
        i = i + 1;
    }
    assert(copy@ =~= bytes@);
    copy
}

/// The position of the first square at or behind `from` that holds a
/// number; 81 if there is none.
pub open spec fn next_filled(values: Seq<u8>, from: int) -> int
    decreases 81 - from,
{
    if from >= 81 {
        81
    } else if from >= 0 && values[from] != 0 {
        from
    } else {
        next_filled(values, from + 1)
    }
}

/// `after` is `before` with `value` in the square at `row` and `col`; the
/// square's clue mark and all other squares are as they were.
pub open spec fn placed(before: Grid, after: Grid, row: int, col: int, value: u8) -> bool {
    forall|k: int|
        0 <= k < 81 ==> #[trigger] cell_at(after, k) == if k == 9 * row + col {
            Cell { value, orig: cell_at(before, k).orig }
        } else {
            cell_at(before, k)
        }
}

/// The round ends, well or badly: nothing but the step changes.
pub open spec fn stops(pre: Round, post: Round, step: Step) -> bool {
    post == (Round { step, ..pre })
}

/// Going into the download of the next clue, or out of the download stage
/// where no clue is left.
pub open spec fn downloads(pre: Round, post: Round, action: Action) -> bool {
    let k = next_filled(values_of(pre.puzzle.board()), pre.cursor as int);
    if k < 81 {
        &&& post == (Round { step: Step::ClueWrite, cursor: (k + 1) as usize, ..pre })
        &&& action matches Action::Send(Frame::Clue(record))
        &&& record@ == record_bytes(k / 9, k % 9, values_of(pre.puzzle.board())[k] as int)
    } else if pre.last == Stage::Download {
        stops(pre, post, Step::Finished) && action == Action::Finish
    } else {
        stops(pre, post, Step::DownloadDrain) && action == Action::Drain
    }
}

/// Going into a stage.
pub open spec fn enters(pre: Round, stage: Stage, post: Round, action: Action) -> bool {
    let pre = Round { stage, ..pre };
    match stage {
        Stage::Attention => stops(pre, post, Step::AttentionWrite) && action == Action::Send(
            Frame::Attention,
        ),
        Stage::Clear => stops(pre, post, Step::ClearWrite) && action == Action::Send(Frame::Clear),
        Stage::Download => downloads(Round { cursor: 0, ..pre }, post, action),
        Stage::Play => stops(pre, post, Step::PlayWrite) && action == Action::Send(Frame::Play),
        Stage::Readback => stops(pre, post, Step::SaveWrite) && action == Action::Send(Frame::Save),
    }
}

/// Coming out of a stage: the round is over if that was its last stage,
/// and goes into the next stage if not. Between download and play the
/// receive buffer is emptied.
pub open spec fn leaves(pre: Round, stage: Stage, post: Round, action: Action) -> bool {
    if stage.spec_rank() >= pre.last.spec_rank() {
        stops(pre, post, Step::Finished) && action == Action::Finish
    } else {
        match stage {
            Stage::Attention => enters(pre, Stage::Clear, post, action),
            Stage::Clear => enters(pre, Stage::Download, post, action),
            Stage::Download => stops(pre, post, Step::DownloadDrain) && action == Action::Drain,
            Stage::Play => enters(pre, Stage::Readback, post, action),
            Stage::Readback => stops(pre, post, Step::Finished) && action == Action::Finish,
        }
    }
}

/// The round fails with `error`.
pub open spec fn fails(pre: Round, post: Round, action: Action, error: LinkError) -> bool {
    stops(pre, post, Step::Failed) && action == Action::Abort(error)
}

/// What the round does when a frame has been written.
pub open spec fn follows_sent(pre: Round, now: u64, post: Round, action: Action) -> bool {
    match pre.step {
        Step::AttentionWrite => stops(pre, post, Step::AttentionReply) && action == Action::Receive(4),
        Step::ClearWrite => stops(pre, post, Step::ClearReply) && action == Action::Receive(4),
        Step::ClueWrite => stops(pre, post, Step::ClueReply) && action == Action::Receive(4),
        Step::PlayWrite => post == (Round { step: Step::PlayReply, started: now, ..pre })
            && action == Action::Receive(4),
        Step::SaveWrite => stops(pre, post, Step::RecordWait) && action == Action::Receive(6),
        Step::AckWrite => stops(pre, post, Step::RecordWait) && action == Action::Receive(6),
        Step::OkWrite => stops(pre, post, Step::ReadbackDrain) && action == Action::Drain,
        _ => fails(pre, post, action, LinkError::TransportIo),
    }
}

/// The time from `started` to `now`; 0 if the clock went backwards.
pub open spec fn time_between(started: u64, now: u64) -> u64 {
    if now >= started {
        (now - started) as u64
    } else {
        0
    }
}

/// What the round does when bytes have been read.
pub open spec fn follows_received(
    pre: Round,
    data: Vec<u8>,
    now: u64,
    post: Round,
    action: Action,
) -> bool {
    match pre.step {
        Step::AttentionReply => if data@ == OK@ {
            leaves(pre, Stage::Attention, post, action)
        } else {
            fails(pre, post, action, LinkError::ProtocolMismatch(data))
        },
        Step::ClearReply => if data@ == OK@ {
            leaves(pre, Stage::Clear, post, action)
        } else {
            fails(pre, post, action, LinkError::ProtocolMismatch(data))
        },
        Step::ClueReply => if data@ == OK@ {
            downloads(pre, post, action)
        } else {
            fails(pre, post, action, LinkError::ProtocolMismatch(data))
        },
        Step::PlayReply => if data@ == OK@ {
            stops(pre, post, Step::Polling) && action == Action::Receive(3)
        } else {
            fails(pre, post, action, LinkError::ProtocolMismatch(data))
        },
        Step::Polling => if data@ == DONE@ {
            leaves(Round { elapsed: time_between(pre.started, now), ..pre }, Stage::Play, post, action)
        } else {
            post == pre && action == Action::Receive(3)
        },
        Step::RecordWait => if starts_with_done(data@) {
            stops(pre, post, Step::OkWrite) && action == Action::Send(Frame::Okay)
        } else {
            match record_square(data@) {
                Some((row, col, value)) => {
                    &&& post == (Round { step: Step::AckWrite, player: post.player, ..pre })
                    &&& placed(pre.player, post.player, row as int, col as int, value)
                    &&& action == Action::Send(Frame::Transfer)
                },
                None => fails(pre, post, action, LinkError::ProtocolMismatch(data)),
            }
        },
        _ => fails(pre, post, action, LinkError::TransportIo),
    }
}

/// What the round does when its last action has gone as `event` says.
pub open spec fn follows(pre: Round, event: Event, now: u64, post: Round, action: Action) -> bool {
    match event {
        Event::Sent => follows_sent(pre, now, post, action),
        Event::Received(data) => follows_received(pre, data, now, post, action),
        Event::TimedOut => if pre.step == Step::Polling {
            post == pre && action == Action::Receive(3)
        } else {
            fails(pre, post, action, LinkError::Timeout)
        },
        Event::Drained => match pre.step {
            Step::DownloadDrain => enters(pre, Stage::Play, post, action),
            Step::ReadbackDrain => {
                &&& post == (Round {
                    step: Step::Finished,
                    verdict: if pre.puzzle.accepts(pre.player) {
                        Verdict::Verified
                    } else {
                        Verdict::Invalid
                    },
                    ..pre
                })
                &&& action == Action::Finish
            },
            _ => fails(pre, post, action, LinkError::TransportIo),
        },
        Event::Failed => fails(pre, post, action, LinkError::TransportIo),
    }
}

/// A round that has not done anything yet.
pub open spec fn is_fresh(round: Round, puzzle: SudokuAvr, last: Stage) -> bool {
    &&& round.puzzle == puzzle
    &&& round.last == last
    &&& round.cursor == 0
    &&& round.started == 0
    &&& round.elapsed == 0
    &&& round.verdict == Verdict::Unknown
    &&& forall|k: int| 0 <= k < 81 ==> #[trigger] cell_at(round.player, k) == (Cell {
        value: 0,
        orig: false,
    })
}

impl Round {
    /// Starts a round that plays the stages from `first` to `last`, and
    /// says what to do first. The player's board is empty, the clock
    /// readings are 0, and there is no verdict yet.
    pub fn start(puzzle: SudokuAvr, first: Stage, last: Stage) -> (begun: (Round, Action))
        ensures
            is_fresh(Round { cursor: 0, ..begun.0 }, puzzle, last),
            enters(Round { cursor: 0, ..begun.0 }, first, begun.0, begun.1),
    {
        let mut round = Round {
            step: Step::Finished,
            stage: first,
            last,
            puzzle,
            cursor: 0,
            player: empty_grid(),
            started: 0,
            elapsed: 0,
            verdict: Verdict::Unknown,
        };
        let action = round.enter(first);
        (round, action)
    }

    fn fail(&mut self, error: LinkError) -> (action: Action)
        ensures
            fails(*old(self), *final(self), action, error),
    {
        self.step = Step::Failed;
        Action::Abort(error)
    }

    fn download(&mut self) -> (action: Action)
        ensures
            downloads(*old(self), *final(self), action),
    {
        let board = self.puzzle.board_grid();
        let ghost values = values_of(board);
        let mut k: usize = self.cursor;
        while k < 81 && board[k / 9][k % 9].value == 0
            invariant
                values == values_of(board),
                next_filled(values, self.cursor as int) == next_filled(values, k as int),
            decreases 81 - k,
        {
            assert(values[k as int] == 0);
            k = k + 1;
        }
        if k < 81 {
            let value = board[k / 9][k % 9].value;
            proof {
                assert(value == values[k as int]);
                assert(1 <= values_of(self.puzzle.solution())[k as int] <= 9);
            }
            self.cursor = k + 1;
            self.step = Step::ClueWrite;
            Action::Send(Frame::Clue(clue_record((k / 9) as u8, (k % 9) as u8, value)))
        } else if self.last.rank() == Stage::Download.rank() {
            self.step = Step::Finished;
            Action::Finish
        } else {
            self.step = Step::DownloadDrain;
            Action::Drain
        }
    }

    fn enter(&mut self, stage: Stage) -> (action: Action)
        ensures
            enters(*old(self), stage, *final(self), action),
    {
        self.stage = stage;
        match stage {
            Stage::Attention => {
                self.step = Step::AttentionWrite;
                Action::Send(Frame::Attention)
            },
            Stage::Clear => {
                self.step = Step::ClearWrite;
                Action::Send(Frame::Clear)
            },
            Stage::Download => {
                self.cursor = 0;
                self.download()
            },
            Stage::Play => {
                self.step = Step::PlayWrite;
                Action::Send(Frame::Play)
            },
            Stage::Readback => {
                self.step = Step::SaveWrite;
                Action::Send(Frame::Save)
            },
        }
    }

    fn leave(&mut self, stage: Stage) -> (action: Action)
        ensures
            leaves(*old(self), stage, *final(self), action),
    {
        if stage.rank() >= self.last.rank() {
            self.step = Step::Finished;
            return Action::Finish;
        }
        match stage {
            Stage::Attention => self.enter(Stage::Clear),
            Stage::Clear => self.enter(Stage::Download),
            Stage::Download => {
                self.step = Step::DownloadDrain;
                Action::Drain
            },
            Stage::Play => self.enter(Stage::Readback),
            Stage::Readback => {
                self.step = Step::Finished;
                Action::Finish
            },
        }
    }

    fn sent(&mut self, now: u64) -> (action: Action)
        ensures
            follows_sent(*old(self), now, *final(self), action),
    {
        match self.step {
            Step::AttentionWrite => {
                self.step = Step::AttentionReply;
                Action::Receive(4)
            },
            Step::ClearWrite => {
                self.step = Step::ClearReply;
                Action::Receive(4)
            },
            Step::ClueWrite => {
                self.step = Step::ClueReply;
                Action::Receive(4)
            },
            Step::PlayWrite => {
                self.step = Step::PlayReply;
                self.started = now;
                Action::Receive(4)
            },
            Step::SaveWrite => {
                self.step = Step::RecordWait;
                Action::Receive(6)
            },
            Step::AckWrite => {
                self.step = Step::RecordWait;
                Action::Receive(6)
            },
            Step::OkWrite => {
                self.step = Step::ReadbackDrain;
                Action::Drain
            },
            _ => self.fail(LinkError::TransportIo),
        }
    }

    fn received(&mut self, data: Vec<u8>, now: u64) -> (action: Action)
        ensures
            follows_received(*old(self), data, now, *final(self), action),
    {
        match self.step {
            Step::AttentionReply => {
                if same_bytes(data.as_slice(), &OK) {
                    self.leave(Stage::Attention)
                } else {
                    self.fail(LinkError::ProtocolMismatch(data))
                }
            },
            Step::ClearReply => {
                if same_bytes(data.as_slice(), &OK) {
                    self.leave(Stage::Clear)
                } else {
                    self.fail(LinkError::ProtocolMismatch(data))
                }
            },
            Step::ClueReply => {
                if same_bytes(data.as_slice(), &OK) {
                    self.download()
                } else {
                    self.fail(LinkError::ProtocolMismatch(data))
                }
            },
            Step::PlayReply => {
                if same_bytes(data.as_slice(), &OK) {
                    self.step = Step::Polling;
                    Action::Receive(3)
                } else {
                    self.fail(LinkError::ProtocolMismatch(data))
                }
            },
            Step::Polling => {
                if same_bytes(data.as_slice(), &DONE) {
                    self.elapsed = if now >= self.started {
                        now - self.started
                    } else {
                        0
                    };
                    self.leave(Stage::Play)
                } else {
                    Action::Receive(3)
                }
            },
            Step::RecordWait => {
                if is_done(data.as_slice()) {
                    self.step = Step::OkWrite;
                    Action::Send(Frame::Okay)
                } else {
                    match decode_record(data.as_slice()) {
                        Some((row, col, value)) => {
                            let ghost before = self.player;
                            self.player[row as usize][col as usize].value = value;
                            self.step = Step::AckWrite;
                            proof {
                                assert forall|k: int| 0 <= k < 81 implies #[trigger] cell_at(
                                    self.player,
                                    k,
                                ) == if k == 9 * row + col {
                                    Cell { value, orig: cell_at(before, k).orig }
                                } else {
                                    cell_at(before, k)
                                } by {
                                    if k != 9 * row + col {
                                        assert(k / 9 != row || k % 9 != col);
                                    }
                                }
                            }
                            Action::Send(Frame::Transfer)
                        },
                        None => self.fail(LinkError::ProtocolMismatch(data)),
                    }
                }
            },
            _ => self.fail(LinkError::TransportIo),
        }
    }

    /// Takes the outcome of the last action, with the clock's reading, and
    /// says what to do next.
    pub fn step(&mut self, event: Event, now: u64) -> (action: Action)
        ensures
            follows(*old(self), event, now, *final(self), action),
    {
        match event {
            Event::Sent => self.sent(now),
            Event::Received(data) => self.received(data, now),
            Event::TimedOut => {
                if self.step == Step::Polling {
                    Action::Receive(3)
                } else {
                    self.fail(LinkError::Timeout)
                }
            },
            Event::Drained => {
                match self.step {
                    Step::DownloadDrain => self.enter(Stage::Play),
                    Step::ReadbackDrain => {
                        self.verdict = if self.puzzle.check(&self.player) {
                            Verdict::Verified
                        } else {
                            Verdict::Invalid
                        };
                        self.step = Step::Finished;
                        Action::Finish
                    },
                    _ => self.fail(LinkError::TransportIo),
                }
            },
            Event::Failed => self.fail(LinkError::TransportIo),
        }
    }
}

/// The steps in which the round waits for the device's `OK`.
pub open spec fn awaits_ok(step: Step) -> bool {
    step == Step::AttentionReply || step == Step::ClearReply || step == Step::ClueReply || step
        == Step::PlayReply
}

/// Anything but `OK` where `OK` is due fails the round at once, with the
/// bytes that came. Nothing is tried again.
pub proof fn lemma_mismatch_is_fatal(pre: Round, data: Vec<u8>, now: u64, post: Round, action: Action)
    requires
        awaits_ok(pre.step),
        data@ != OK@,
        follows(pre, Event::Received(data), now, post, action),
    ensures
        action == Action::Abort(LinkError::ProtocolMismatch(data)),
        post.step == Step::Failed,
{
}

/// A read that times out fails the round, except while it waits for the
/// done mark.
pub proof fn lemma_timeout_is_fatal(pre: Round, now: u64, post: Round, action: Action)
    requires
        pre.step != Step::Polling,
        follows(pre, Event::TimedOut, now, post, action),
    ensures
        action == Action::Abort(LinkError::Timeout),
        post.step == Step::Failed,
{
}

/// While the round waits for the done mark, a timeout or any other bytes
/// change nothing: it reads again.
pub proof fn lemma_poll_goes_on(pre: Round, event: Event, now: u64, post: Round, action: Action)
    requires
        pre.step == Step::Polling,
        event == Event::TimedOut || (event matches Event::Received(data) && data@ != DONE@),
        follows(pre, event, now, post, action),
    ensures
        post == pre,
        action == Action::Receive(3),
{
}

/// A round that has failed or finished stays so, whatever it is told.
pub proof fn lemma_ended_round_stays_ended(pre: Round, event: Event, now: u64, post: Round, action: Action)
    requires
        pre.step == Step::Failed || pre.step == Step::Finished,
        follows(pre, event, now, post, action),
    ensures
        action is Abort,
        post.step == Step::Failed,
{
}

/// Each record of a readback puts its value into its square of the
/// player's board, touches no other square, and is acknowledged.
pub proof fn lemma_record_is_placed(
    pre: Round,
    data: Vec<u8>,
    now: u64,
    post: Round,
    action: Action,
    row: u8,
    col: u8,
    value: u8,
)
    requires
        pre.step == Step::RecordWait,
        !starts_with_done(data@),
        record_square(data@) == Some((row, col, value)),
        follows(pre, Event::Received(data), now, post, action),
    ensures
        action == Action::Send(Frame::Transfer),
        post.step == Step::AckWrite,
        placed(pre.player, post.player, row as int, col as int, value),
        values_of(post.player) == values_of(pre.player).update(9 * row + col, value),
{
    assert forall|k: int| 0 <= k < 81 implies values_of(post.player)[k] == values_of(
        pre.player,
    ).update(9 * row + col, value)[k] by {
        assert(cell_at(post.player, k) == if k == 9 * row + col {
            Cell { value, orig: cell_at(pre.player, k).orig }
        } else {
            cell_at(pre.player, k)
        });
    }
    assert(values_of(post.player) =~= values_of(pre.player).update(9 * row + col, value));
}

} // verus!
