use crate::config::PortConfig;
use crate::error::{Notice, PortError};
use crate::reader::{ByteRead, ReaderEngine};
use std::sync::mpsc::{Receiver, Sender};
use vstd::prelude::*;

verus! {

#[verifier::external_type_specification]
#[verifier::external_body]
#[verifier::reject_recursive_types(T)]
pub struct ExSender<T>(Sender<T>);

#[verifier::external_type_specification]
#[verifier::external_body]
#[verifier::reject_recursive_types(T)]
pub struct ExReceiver<T>(Receiver<T>);

/// Relies on std::sync::mpsc::channel: a fresh sender and its receiver.
#[verifier::external_body]
pub(crate) fn cancel_channel() -> (Sender<usize>, Receiver<usize>) {
    std::sync::mpsc::channel()
}

/// Relies on std::sync::mpsc::Sender::send: whether the token was delivered,
/// which fails only once the receiver is gone.
#[verifier::external_body]
pub(crate) fn signal(sender: &Sender<usize>) -> (delivered: bool) {
    sender.send(1).is_ok()
}

/// A device connection with blocking primitives. Implementations decide every
/// outcome; the registry's contracts hold whatever they return.
pub trait PortHandle: Sized {
    /// Opens the device named `path` with `config`.
    fn open_port(path: &String, config: &PortConfig) -> Result<Self, String>;

    /// An independent handle on the same device, for a reader.
    fn duplicate(&self) -> Result<Self, String>;

    /// Writes `data`, returning how many bytes went out.
    fn write_bytes(&mut self, data: &[u8]) -> Result<usize, String>;

    /// Reads one byte, waiting at most the configured timeout.
    fn read_byte(&mut self) -> ByteRead;
}

/// The live state of one open identifier: its handle and, while a reader is
/// active, the sender that cancels it.
pub struct Session<H> {
    pub path: String,
    pub handle: H,
    pub sender: Option<Sender<usize>>,
}

impl<H> Session<H> {
    pub open spec fn is_reading(&self) -> bool {
        self.sender is Some
    }
}

/// What a caller needs to run a reader: the duplicated handle, the receiving
/// end of its cancellation channel and a fresh framing engine.
pub struct ReaderTask<H> {
    pub path: String,
    pub handle: H,
    pub cancel: Receiver<usize>,
    pub engine: ReaderEngine,
}

/// The table of open sessions, keyed by identifier.
pub struct Registry<H> {
    sessions: Vec<Session<H>>,
}

pub open spec fn has_path<H>(s: Seq<Session<H>>, p: Seq<char>) -> bool {
    exists|i: int| 0 <= i < s.len() && #[trigger] s[i].path@ == p
}

pub open spec fn distinct_paths<H>(s: Seq<Session<H>>) -> bool {
    forall|i: int, j: int| 0 <= i < j < s.len() ==> #[trigger] s[i].path@ != #[trigger] s[j].path@
}

/// Exactly one session carries `p`.
pub open spec fn has_single<H>(s: Seq<Session<H>>, p: Seq<char>) -> bool {
    exists|i: int|
        0 <= i < s.len() && #[trigger] s[i].path@ == p && forall|j: int|
            0 <= j < s.len() && #[trigger] s[j].path@ == p ==> j == i
}

/// `b` is `a` with its reader cleared.
pub open spec fn reader_cleared<H>(a: Session<H>, b: Session<H>) -> bool {
    b.path == a.path && b.handle == a.handle && b.sender is None
}

/// `b` is `a` after a write through session `i`: that session keeps its
/// identifier and reader, and every other session is untouched.
pub open spec fn written_at<H>(a: Seq<Session<H>>, b: Seq<Session<H>>, i: int) -> bool {
    &&& b.len() == a.len()
    &&& b[i].path == a[i].path
    &&& b[i].sender == a[i].sender
    &&& forall|j: int| 0 <= j < a.len() && j != i ==> #[trigger] b[j] == a[j]
}

impl<H> View for Registry<H> {
    type V = Seq<Session<H>>;

    closed spec fn view(&self) -> Seq<Session<H>> {
        self.sessions@
    }
}

impl<H> Registry<H> {
    /// Identifiers are unique.
    pub open spec fn wf(&self) -> bool {
        distinct_paths(self@)
    }

    pub fn len(&self) -> (r: usize)
        ensures
            r == self@.len(),
    {
        self.sessions.len()
    }

    pub fn session(&self, i: usize) -> (r: &Session<H>)
        requires
            i < self@.len(),
        ensures
            *r == self@[i as int],
    {
        &self.sessions[i]
    }

    pub(crate) fn add(&mut self, s: Session<H>)
        ensures
            final(self)@ == old(self)@.push(s),
    {
        self.sessions.push(s);
    }

    pub(crate) fn take(&mut self, i: usize) -> (r: Session<H>)
        requires
            i < old(self)@.len(),
        ensures
            r == old(self)@[i as int],
            final(self)@ == old(self)@.remove(i as int),
    {
        self.sessions.remove(i)
    }

    pub(crate) fn put_back(&mut self, i: usize, s: Session<H>)
        requires
            i <= old(self)@.len(),
        ensures
            final(self)@ == old(self)@.insert(i as int, s),
    {
        self.sessions.insert(i, s);
    }

    pub(crate) fn clear(&mut self)
        ensures
            final(self)@.len() == 0,
    {
        self.sessions.clear();
    }

    /// Position of the session open under `path`.
    pub fn find(&self, path: &String) -> (r: Option<usize>)
        ensures
            match r {
                Some(i) => i < self@.len() && self@[i as int].path@ == path@,
                None => !has_path(self@, path@),
            },
    {
        let mut i: usize = 0;
        while i < self.sessions.len()
            invariant
                i <= self.sessions@.len(),
                forall|k: int| 0 <= k < i ==> self.sessions@[k].path@ != path@,
            decreases self.sessions@.len() - i,
        {
            if self.sessions[i].path == *path {
                return Some(i);
            }
            i += 1;
        }
        None
    }

    pub fn is_open(&self, path: &String) -> (r: bool)
        ensures
            r == has_path(self@, path@),
    {
        self.find(path).is_some()
    }

    /// Whether a reader is active for `path`; false when it is not open.
    pub fn is_reading(&self, path: &String) -> (r: bool)
        requires
            self.wf(),
        ensures
            r == exists|i: int|
                0 <= i < self@.len() && #[trigger] self@[i].path@ == path@ && self@[i].is_reading(),
    {
        match self.find(path) {
            Some(i) => {
                assert(self@[i as int].path@ == path@);
                self.sessions[i].sender.is_some()
            },
            None => false,
        }
    }
}

/// An empty registry, created once when the host starts.
pub fn init<H>() -> (r: Registry<H>)
    ensures
        r@.len() == 0,
        r.wf(),
{
    Registry { sessions: Vec::new() }
}

} // verus!
