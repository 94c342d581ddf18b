//! Streaming a handed-off file: each read of one block becomes one chunk for
//! the response body, the end of the file closes the body, and a failed read
//! ends it with an error.

use vstd::prelude::*;

verus! {

/// The size of the buffer that one read fills at most.
pub const BLOCK_SIZE: usize = 1024;

/// How one read of the file went.
pub enum ReadOutcome {
    /// This many bytes were read into the front of the buffer; 0 is the end of the file.
    Data(usize),
    /// The read failed.
    Failed,
}

/// What the body of the response receives next.
pub enum Step {
    /// A chunk holding exactly the bytes read.
    Send(Vec<u8>),
    /// The file is done: close the body, the transfer succeeded.
    Close,
    /// The file could not be read: end the body with an error.
    Abort,
}

#[derive(PartialEq, Eq, Structural, Clone, Copy, Debug)]
pub enum PumpState {
    Streaming,
    Complete,
    Corrupted,
}

/// The bytes a read produced, or `None` where it failed.
pub open spec fn read_result(buf: Seq<u8>, outcome: ReadOutcome) -> Option<Seq<u8>> {
    match outcome {
        ReadOutcome::Data(n) => Some(buf.take(n as int)),
        ReadOutcome::Failed => None,
    }
}

/// State and bytes delivered after one more read, while streaming.
pub open spec fn advance(sent: Seq<u8>, read: Option<Seq<u8>>) -> (PumpState, Seq<u8>) {
    match read {
        None => (PumpState::Corrupted, sent),
        Some(b) => if b.len() == 0 {
            (PumpState::Complete, sent)
        } else {
            (PumpState::Streaming, sent + b)
        },
    }
}

/// State and bytes delivered after a sequence of reads from a new pump;
/// once the pump has stopped, later reads change nothing.
pub open spec fn run(reads: Seq<Option<Seq<u8>>>) -> (PumpState, Seq<u8>)
    decreases reads.len(),
{
    if reads.len() == 0 {
        (PumpState::Streaming, Seq::empty())
    } else {
        let (state, sent) = run(reads.drop_last());
        if state == PumpState::Streaming {
            advance(sent, reads.last())
        } else {
            (state, sent)
        }
    }
}

/// Reads that each succeeded with the given bytes.
pub open spec fn reads_of(pieces: Seq<Seq<u8>>) -> Seq<Option<Seq<u8>>> {
    pieces.map_values(|b: Seq<u8>| Some(b))
}

proof fn lemma_run_pieces(pieces: Seq<Seq<u8>>)
    requires
        forall|i: int| 0 <= i < pieces.len() ==> (#[trigger] pieces[i]).len() > 0,
    ensures
        run(reads_of(pieces)) == (PumpState::Streaming, pieces.flatten_alt()),
    decreases pieces.len(),
{
    if pieces.len() > 0 {
        let prefix = pieces.drop_last();
        assert(reads_of(pieces).drop_last() =~= reads_of(prefix));
        lemma_run_pieces(prefix);
        assert(pieces[pieces.len() - 1].len() > 0);
    }
}

/// A file read as non-empty blocks, in order, then its end: the body
/// receives exactly the file's bytes, however they were split into blocks,
/// and the transfer completes.
pub proof fn lemma_body_is_content(pieces: Seq<Seq<u8>>)
    requires
        forall|i: int| 0 <= i < pieces.len() ==> (#[trigger] pieces[i]).len() > 0,
    ensures
        run(reads_of(pieces).push(Some(Seq::empty()))) == (PumpState::Complete, pieces.flatten()),
{
    lemma_run_pieces(pieces);
    pieces.lemma_flatten_and_flatten_alt_are_equivalent();
    assert(reads_of(pieces).push(Some(Seq::empty())).drop_last() =~= reads_of(pieces));
}

/// A read that fails after some blocks were read: the body receives those
/// blocks and then ends as corrupted, never as a completed transfer, and no
/// later read changes that.
pub proof fn lemma_failure_never_completes(pieces: Seq<Seq<u8>>, later: Seq<Option<Seq<u8>>>)
    requires
        forall|i: int| 0 <= i < pieces.len() ==> (#[trigger] pieces[i]).len() > 0,
    ensures
        run(reads_of(pieces).push(None) + later) == (PumpState::Corrupted, pieces.flatten()),
    decreases later.len(),
{
    if later.len() == 0 {
        lemma_run_pieces(pieces);
        pieces.lemma_flatten_and_flatten_alt_are_equivalent();
        assert(reads_of(pieces).push(None) + later =~= reads_of(pieces).push(None));
        assert(reads_of(pieces).push(None).drop_last() =~= reads_of(pieces));
    } else {
        lemma_failure_never_completes(pieces, later.drop_last());
        assert((reads_of(pieces).push(None) + later).drop_last() =~= reads_of(pieces).push(None)
            + later.drop_last());
    }
}

/// The streaming of one file, block by block.
pub struct Pump {
    state: PumpState,
    sent: Ghost<Seq<u8>>,
}

impl Pump {
    /// The bytes handed to the body so far, in order.
    pub closed spec fn delivered(&self) -> Seq<u8> {
        self.sent@
    }

    pub closed spec fn status(&self) -> PumpState {
        self.state
    }

    /// A pump that has sent nothing yet.
    pub fn new() -> (p: Pump)
        ensures
            p.status() == PumpState::Streaming,
            p.delivered() == Seq::<u8>::empty(),
    {
        Pump { state: PumpState::Streaming, sent: Ghost(Seq::empty()) }
    }

    pub fn state(&self) -> (s: PumpState)
        ensures
            s == self.status(),
    {
        self.state
    }

    /// Whether another read is wanted.
    pub fn is_streaming(&self) -> (b: bool)
        ensures
            b == (self.status() == PumpState::Streaming),
    {
        self.state == PumpState::Streaming
    }

    /// Turns the outcome of one read into `buf` into what the body receives.
    /// Bytes read are forwarded unchanged; the end of the file completes the
    /// transfer; a failure is never reported as a completed transfer.
    pub fn on_read(&mut self, buf: &[u8], outcome: ReadOutcome) -> (s: Step)
        requires
            old(self).status() == PumpState::Streaming,
            outcome matches ReadOutcome::Data(n) ==> n <= buf@.len(),
        ensures
            (final(self).status(), final(self).delivered()) == advance(
                old(self).delivered(),
                read_result(buf@, outcome),
            ),
            match outcome {
                ReadOutcome::Data(n) => if n == 0 {
                    &&& s is Close
                    &&& final(self).status() == PumpState::Complete
                    &&& final(self).delivered() == old(self).delivered()
                } else {
                    &&& s matches Step::Send(v) && v@ == buf@.take(n as int)
                    &&& final(self).status() == PumpState::Streaming
                    &&& final(self).delivered() == old(self).delivered() + buf@.take(n as int)
                },
                ReadOutcome::Failed => {
                    &&& s is Abort
                    &&& final(self).status() == PumpState::Corrupted
                    &&& final(self).delivered() == old(self).delivered()
                },
            },
    {
        match outcome {
            ReadOutcome::Data(n) => {
                if n == 0 {
                    self.state = PumpState::Complete;
                    Step::Close
                } else {
                    let mut chunk: Vec<u8> = Vec::with_capacity(n);
                    let mut i: usize = 0;
                    while i < n
                        invariant
                            n <= buf@.len(),
                            i <= n,
                            chunk@ == buf@.take(i as int),
                        decreases n - i,
                    {
                        chunk.push(buf[i]);
                        i = i + 1;
                        assert(chunk@ =~= buf@.take(i as int));
                    }
                    proof {
                        self.sent@ = self.sent@ + buf@.take(n as int);
                    }
                    Step::Send(chunk)
                }
            },
            ReadOutcome::Failed => {
                self.state = PumpState::Corrupted;
                Step::Abort
            },
        }
    }
}

} // verus!
