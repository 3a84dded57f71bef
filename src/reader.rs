use vstd::prelude::*;

verus! {

/// The byte that ends a message.
pub const DELIMITER: u8 = 10;

/// Outcome of one attempt to read a single byte from a device.
#[derive(Debug, Clone, PartialEq, Eq)]
pub enum ByteRead {
    /// A byte arrived.
    Byte(u8),
    /// Nothing arrived within the read timeout.
    TimedOut,
    /// The device reported any other fault.
    Failed(String),
}

/// Outcome of a non-blocking look at a reader's cancellation channel.
#[derive(Debug, Clone, Copy, PartialEq, Eq, Structural)]
pub enum CancelPoll {
    /// No token is waiting and the sending side is still there.
    Quiet,
    /// A cancellation token was received.
    Signalled,
    /// The sending side has gone away.
    ChannelClosed,
}

/// Life-cycle of a reader: it starts running and stops for good in one of
/// the other states.
#[derive(Debug, Clone, Copy, PartialEq, Eq, Structural)]
pub enum ReaderState {
    Running,
    Cancelled,
    IoError,
}

/// One complete frame: the raw bytes, delimiter included, and their count.
#[derive(Debug, Clone, PartialEq, Eq)]
pub struct Message {
    pub data: Vec<u8>,
    pub size: usize,
}

/// One engine step on the buffered bytes and state: the new buffer, the new
/// state and the completed message, if any.
pub open spec fn step(pending: Seq<u8>, state: ReaderState, read: ByteRead) -> (Seq<u8>, ReaderState, Option<Seq<u8>>) {
    if state != ReaderState::Running {
        (pending, state, None)
    } else {
        match read {
            ByteRead::Byte(b) => if b == DELIMITER {
                (Seq::<u8>::empty(), ReaderState::Running, Some(pending.push(b)))
            } else {
                (pending.push(b), ReaderState::Running, None)
            },
            ByteRead::TimedOut => (pending, state, None),
            ByteRead::Failed(_) => (pending, ReaderState::IoError, None),
        }
    }
}

/// The messages emitted over a run of read outcomes.
pub open spec fn run(pending: Seq<u8>, state: ReaderState, reads: Seq<ByteRead>) -> Seq<Seq<u8>>
    decreases reads.len(),
{
    if reads.len() == 0 {
        Seq::<Seq<u8>>::empty()
    } else {
        let (p, st, m) = step(pending, state, reads[0]);
        let rest = run(p, st, reads.drop_first());
        match m {
            Some(x) => seq![x] + rest,
            None => rest,
        }
    }
}

/// `reads` with every timeout taken out.
pub open spec fn without_timeouts(reads: Seq<ByteRead>) -> Seq<ByteRead>
    decreases reads.len(),
{
    if reads.len() == 0 {
        reads
    } else if reads[0] is TimedOut {
        without_timeouts(reads.drop_first())
    } else {
        seq![reads[0]] + without_timeouts(reads.drop_first())
    }
}

/// Timeouts anywhere in a run change nothing that the run emits: the same
/// messages come out as from the run without them.
pub proof fn lemma_timeouts_change_nothing(pending: Seq<u8>, state: ReaderState, reads: Seq<ByteRead>)
    ensures
        run(pending, state, reads) == run(pending, state, without_timeouts(reads)),
    decreases reads.len(),
{
    if reads.len() > 0 {
        let (p, st, m) = step(pending, state, reads[0]);
        lemma_timeouts_change_nothing(p, st, reads.drop_first());
        if !(reads[0] is TimedOut) {
            let w = seq![reads[0]] + without_timeouts(reads.drop_first());
            assert(w[0] == reads[0]);
            assert(w.drop_first() =~= without_timeouts(reads.drop_first()));
        }
    }
}

/// A cancelled or failed engine emits nothing more, whatever it is fed.
pub proof fn lemma_stopped_emits_nothing(pending: Seq<u8>, state: ReaderState, reads: Seq<ByteRead>)
    requires
        state != ReaderState::Running,
    ensures
        run(pending, state, reads).len() == 0,
    decreases reads.len(),
{
    if reads.len() > 0 {
        lemma_stopped_emits_nothing(pending, state, reads.drop_first());
    }
}

/// Turns a stream of single-byte reads into newline-delimited messages.
pub struct ReaderEngine {
    buffer: Vec<u8>,
    state: ReaderState,
}

impl ReaderEngine {
    /// Bytes received since the last emitted message.
    pub closed spec fn pending(&self) -> Seq<u8> {
        self.buffer@
    }

    pub closed spec fn spec_state(&self) -> ReaderState {
        self.state
    }

    pub open spec fn is_running(&self) -> bool {
        self.spec_state() == ReaderState::Running
    }

    /// A running engine with an empty buffer.
    pub fn new() -> (r: ReaderEngine)
        ensures
            r.pending() == Seq::<u8>::empty(),
            r.is_running(),
    {
        ReaderEngine { buffer: Vec::new(), state: ReaderState::Running }
    }

    pub fn state(&self) -> (r: ReaderState)
        ensures
            r == self.spec_state(),
    {
        self.state
    }

    /// Bytes waiting for a delimiter.
    pub fn pending_bytes(&self) -> (r: &Vec<u8>)
        ensures
            r@ == self.pending(),
    {
        &self.buffer
    }

    /// Takes the result of polling the cancellation channel and tells whether
    /// the engine should go on to read a byte. A token or a closed channel
    /// both cancel the engine; a stopped engine stays stopped.
    pub fn on_poll(&mut self, poll: CancelPoll) -> (keep_going: bool)
        ensures
            final(self).pending() == old(self).pending(),
            keep_going <==> (old(self).is_running() && poll == CancelPoll::Quiet),
            !old(self).is_running() ==> final(self).spec_state() == old(self).spec_state(),
            old(self).is_running() ==> final(self).spec_state() == (if poll == CancelPoll::Quiet {
                ReaderState::Running
            } else {
                ReaderState::Cancelled
            }),
    {
        if self.state != ReaderState::Running {
            return false;
        }
        match poll {
            CancelPoll::Quiet => true,
            _ => {
                self.state = ReaderState::Cancelled;
                false
            },
        }
    }

    /// Takes the outcome of one device read. A byte is appended to the buffer;
    /// a delimiter then completes the buffered message, which is handed back
    /// and the buffer emptied. A timeout changes nothing. Any other fault
    /// stops the engine. A stopped engine ignores every outcome.
    pub fn on_read(&mut self, read: ByteRead) -> (r: Option<Message>)
        ensures
            step(old(self).pending(), old(self).spec_state(), read) == (
                final(self).pending(),
                final(self).spec_state(),
                match r {
                    Some(m) => Some(m.data@),
                    None => None,
                },
            ),
            !old(self).is_running() ==> r is None && final(self).pending() == old(self).pending()
                && final(self).spec_state() == old(self).spec_state(),
            old(self).is_running() ==> match read {
                ByteRead::Byte(b) => final(self).is_running() && if b == DELIMITER {
                    final(self).pending() == Seq::<u8>::empty() && match r {
                        Some(m) => m.data@ == old(self).pending().push(b) && m.size
                            == m.data@.len(),
                        None => false,
                    }
                } else {
                    r is None && final(self).pending() == old(self).pending().push(b)
                },
                ByteRead::TimedOut => r is None && final(self).is_running()
                    && final(self).pending() == old(self).pending(),
                ByteRead::Failed(_) => r is None && final(self).spec_state() == ReaderState::IoError
                    && final(self).pending() == old(self).pending(),
            },
    {
        if self.state != ReaderState::Running {
            return None;
        }
        match read {
            ByteRead::Byte(b) => {
                self.buffer.push(b);
                if b == DELIMITER {
                    let mut data: Vec<u8> = Vec::new();
                    std::mem::swap(&mut data, &mut self.buffer);
                    let size = data.len();
                    Some(Message { data, size })
                } else {
                    None
                }
            },
            ByteRead::TimedOut => None,
            ByteRead::Failed(_) => {
                self.state = ReaderState::IoError;
                None
            },
        }
    }
}

} // verus!
