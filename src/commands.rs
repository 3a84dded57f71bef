use crate::config::PortConfig;
use crate::error::{Notice, PortError};
use crate::reader::{
    lemma_stopped_emits_nothing, lemma_timeouts_change_nothing, run, without_timeouts, ByteRead,
    ReaderEngine, ReaderState,
};
use crate::registry::{
    cancel_channel, distinct_paths, has_path, has_single, reader_cleared, signal, written_at, PortHandle,
    ReaderTask, Registry, Session,
};
use vstd::prelude::*;

verus! {

/// Index of the session open under `p`, given that one is.
pub open spec fn index_of<H>(s: Seq<Session<H>>, p: Seq<char>) -> int
    recommends
        has_path(s, p),
{
    choose|i: int| 0 <= i < s.len() && #[trigger] s[i].path@ == p
}

proof fn lemma_remove_keeps_distinct<H>(s: Seq<Session<H>>, i: int)
    requires
        distinct_paths(s),
        0 <= i < s.len(),
    ensures
        distinct_paths(s.remove(i)),
        !has_path(s.remove(i), s[i].path@),
        forall|p: Seq<char>| p != s[i].path@ ==> (has_path(s.remove(i), p) <==> has_path(s, p)),
{
    let r = s.remove(i);
    assert forall|a: int, b: int| 0 <= a < b < r.len() implies r[a].path@ != r[b].path@ by {
        let a2 = if a < i { a } else { a + 1 };
        let b2 = if b < i { b } else { b + 1 };
        assert(r[a] == s[a2] && r[b] == s[b2]);
    }
    if has_path(r, s[i].path@) {
        let k = choose|k: int| 0 <= k < r.len() && #[trigger] r[k].path@ == s[i].path@;
        let k2 = if k < i { k } else { k + 1 };
        assert(r[k] == s[k2]);
    }
    assert forall|p: Seq<char>| p != s[i].path@ implies (has_path(r, p) <==> has_path(s, p)) by {
        if has_path(s, p) {
            let k = choose|k: int| 0 <= k < s.len() && #[trigger] s[k].path@ == p;
            let k2 = if k < i { k } else { k - 1 };
            assert(r[k2] == s[k]);
        }
        if has_path(r, p) {
            let k = choose|k: int| 0 <= k < r.len() && #[trigger] r[k].path@ == p;
            let k2 = if k < i { k } else { k + 1 };
            assert(r[k] == s[k2]);
        }
    }
}

proof fn lemma_found_index<H>(s: Seq<Session<H>>, p: Seq<char>, i: int)
    requires
        distinct_paths(s),
        0 <= i < s.len(),
        s[i].path@ == p,
    ensures
        has_path(s, p),
        index_of(s, p) == i,
{
    let j = index_of(s, p);
    assert(s[j].path@ == p);
}

proof fn lemma_update_keeps_distinct<H>(s: Seq<Session<H>>, i: int, x: Session<H>)
    requires
        distinct_paths(s),
        0 <= i < s.len(),
        x.path == s[i].path,
    ensures
        distinct_paths(s.update(i, x)),
{
    let u = s.update(i, x);
    assert forall|a: int, b: int| 0 <= a < b < u.len() implies u[a].path@ != u[b].path@ by {
        assert(u[a].path == s[a].path && u[b].path == s[b].path);
    }
}

/// Opens the device `path` with `config` and registers a session for it with
/// no reader. Fails with `AlreadyOpen`, leaving the registry untouched, when
/// the identifier is already open; with `OpenError` when the device refuses.
pub fn open<H: PortHandle>(registry: &mut Registry<H>, path: String, config: &PortConfig) -> (r:
    Result<(), PortError>)
    requires
        old(registry).wf(),
    ensures
        final(registry).wf(),
        has_path(old(registry)@, path@) ==> r == Err::<(), PortError>(PortError::AlreadyOpen(path))
            && final(registry)@ == old(registry)@,
        !has_path(old(registry)@, path@) ==> match r {
            Ok(_) => {
                &&& final(registry)@.len() == old(registry)@.len() + 1
                &&& final(registry)@.take(old(registry)@.len() as int) == old(registry)@
                &&& final(registry)@.last().path@ == path@
                &&& final(registry)@.last().sender is None
                &&& has_single(final(registry)@, path@)
            },
            Err(e) => final(registry)@ == old(registry)@ && match e {
                PortError::OpenError(p, _) => p@ == path@,
                _ => false,
            },
        },
{
    if registry.find(&path).is_some() {
        return Err(PortError::AlreadyOpen(path));
    }
    let opened = H::open_port(&path, config);
    register_opened(registry, path, opened)
}

/// Registers the outcome of opening the device `path`, which is not open yet:
/// an opened handle becomes a new session with no reader; a refusal becomes
/// `OpenError` with its cause and leaves the registry as it was.
pub fn register_opened<H>(registry: &mut Registry<H>, path: String, opened: Result<H, String>) -> (r:
    Result<(), PortError>)
    requires
        old(registry).wf(),
        !has_path(old(registry)@, path@),
    ensures
        final(registry).wf(),
        match opened {
            Ok(h) => {
                &&& r is Ok
                &&& final(registry)@ == old(registry)@.push((Session { path, handle: h, sender: None }))
                &&& has_single(final(registry)@, path@)
            },
            Err(c) => r == Err::<(), PortError>(PortError::OpenError(path, c)) && final(registry)@
                == old(registry)@,
        },
{
    match opened {
        Ok(handle) => {
            let ghost before = registry@;
            registry.add(Session { path, handle, sender: None });
            assert(distinct_paths(registry@)) by {
                assert forall|a: int, b: int| 0 <= a < b < registry@.len() implies registry@[a].path@
                    != registry@[b].path@ by {
                    if b == before.len() {
                        assert(registry@[a] == before[a]);
                    }
                }
            }
            assert(has_single(registry@, path@)) by {
                assert(registry@[before.len() as int].path@ == path@);
            }
            Ok(())
        },
        Err(cause) => Err(PortError::OpenError(path, cause)),
    }
}

/// Identifiers of the sessions of `s` that have an active reader, in order:
/// the readers that closing all of `s` signals.
pub open spec fn reading_paths<H>(s: Seq<Session<H>>) -> Seq<String>
    decreases s.len(),
{
    if s.len() == 0 {
        Seq::<String>::empty()
    } else if s.last().is_reading() {
        reading_paths(s.drop_last()).push(s.last().path)
    } else {
        reading_paths(s.drop_last())
    }
}

/// `log` after signalling the reader of `p` in `s`, when `p` is open and has
/// an active reader; `log` itself otherwise.
pub open spec fn signal_log<H>(log: Seq<String>, s: Seq<Session<H>>, p: Seq<char>) -> Seq<String> {
    if has_path(s, p) && s[index_of(s, p)].is_reading() {
        log.push(s[index_of(s, p)].path)
    } else {
        log
    }
}

/// Removes the session of `path`, signalling its reader first if it has one;
/// a failed signal is not an error. Each signal sent is recorded by pushing
/// the identifier onto `signalled`. Fails with `NotFound` when `path` is not
/// open.
pub fn close<H>(registry: &mut Registry<H>, path: String, signalled: &mut Vec<String>) -> (r:
    Result<(), PortError>)
    requires
        old(registry).wf(),
    ensures
        final(registry).wf(),
        r is Ok <==> has_path(old(registry)@, path@),
        r is Err ==> r == Err::<(), PortError>(PortError::NotFound(path)) && final(registry)@ == old(registry)@,
        r is Ok ==> final(registry)@ == old(registry)@.remove(index_of(old(registry)@, path@)),
        !has_path(final(registry)@, path@),
        final(signalled)@ == signal_log(old(signalled)@, old(registry)@, path@),
{
    match registry.find(&path) {
        Some(i) => {
            let ghost before = registry@;
            proof {
                lemma_found_index(before, path@, i as int);
            }
            let session = registry.take(i);
            if let Some(sender) = &session.sender {
                let _ = signal(sender);
                signalled.push(session.path.clone());
            }
            proof {
                lemma_remove_keeps_distinct(before, i as int);
            }
            Ok(())
        },
        None => Err(PortError::NotFound(path)),
    }
}

/// Like `close`, but an identifier that is not open is not an error.
pub fn force_close<H>(registry: &mut Registry<H>, path: String, signalled: &mut Vec<String>) -> (r:
    Result<(), PortError>)
    requires
        old(registry).wf(),
    ensures
        r is Ok,
        final(registry).wf(),
        !has_path(old(registry)@, path@) ==> final(registry)@ == old(registry)@,
        has_path(old(registry)@, path@) ==> final(registry)@ == old(registry)@.remove(
            index_of(old(registry)@, path@),
        ),
        !has_path(final(registry)@, path@),
        final(signalled)@ == signal_log(old(signalled)@, old(registry)@, path@),
{
    match close(registry, path, signalled) {
        Ok(()) => Ok(()),
        Err(_) => Ok(()),
    }
}

/// Signals every active reader, in order, and then empties the registry. A
/// signal that cannot be delivered (its reader already gone) is not an error.
/// Each signal sent is recorded by pushing the identifier onto `signalled`.
pub fn close_all<H>(registry: &mut Registry<H>, signalled: &mut Vec<String>) -> (r: Result<
    (),
    PortError,
>)
    ensures
        r is Ok,
        final(registry)@.len() == 0,
        final(registry).wf(),
        final(signalled)@ == old(signalled)@ + reading_paths(old(registry)@),
{
    let n = registry.len();
    let mut i: usize = 0;
    assert(old(registry)@.take(0) =~= Seq::<Session<H>>::empty());
    assert(old(signalled)@ + Seq::<String>::empty() =~= old(signalled)@);
    while i < n
        invariant
            n == registry@.len(),
            registry@ == old(registry)@,
            i <= n,
            signalled@ == old(signalled)@ + reading_paths(registry@.take(i as int)),
        decreases n - i,
    {
        let ghost prior = signalled@;
        assert(registry@.take(i + 1).drop_last() =~= registry@.take(i as int));
        let session = registry.session(i);
        if let Some(sender) = &session.sender {
            let _ = signal(sender);
            signalled.push(session.path.clone());
            assert(signalled@ =~= old(signalled)@ + reading_paths(registry@.take(i + 1)));
        }
        i += 1;
    }
    assert(registry@.take(n as int) =~= registry@);
    registry.clear();
    Ok(())
}

/// Stops the reader of `path`, if any: signals it, ignoring a receiver that
/// is already gone, records the signal by pushing the identifier onto
/// `signalled`, and forgets the sender. Fails with `NotFound` when `path` is
/// not open.
pub fn cancel_read<H>(registry: &mut Registry<H>, path: String, signalled: &mut Vec<String>) -> (r:
    Result<(), PortError>)
    requires
        old(registry).wf(),
    ensures
        final(registry).wf(),
        r is Ok <==> has_path(old(registry)@, path@),
        r is Err ==> r == Err::<(), PortError>(PortError::NotFound(path)) && final(registry)@ == old(registry)@,
        r is Ok ==> {
            let i = index_of(old(registry)@, path@);
            &&& final(registry)@.len() == old(registry)@.len()
            &&& reader_cleared(old(registry)@[i], final(registry)@[i])
            &&& forall|j: int|
                0 <= j < old(registry)@.len() && j != i ==> #[trigger] final(registry)@[j] == old(registry)@[j]
        },
        final(signalled)@ == signal_log(old(signalled)@, old(registry)@, path@),
{
    match registry.find(&path) {
        Some(i) => {
            let ghost before = registry@;
            proof {
                lemma_found_index(before, path@, i as int);
            }
            let mut session = registry.take(i);
            if let Some(sender) = &session.sender {
                let _ = signal(sender);
                signalled.push(session.path.clone());
            }
            session.sender = None;
            registry.put_back(i, session);
            proof {
                assert(registry@ =~= before.update(i as int, session));
                lemma_update_keeps_distinct(before, i as int, session);
            }
            Ok(())
        },
        None => Err(PortError::NotFound(path)),
    }
}

/// What holds of every run of a freshly started engine: timeouts anywhere in
/// its input change nothing it emits, and once cancelled it emits nothing.
pub open spec fn engine_laws(e: ReaderEngine) -> bool {
    &&& forall|reads: Seq<ByteRead>|
        #[trigger] run(e.pending(), e.spec_state(), reads) == run(e.pending(), e.spec_state(), without_timeouts(reads))
    &&& forall|reads: Seq<ByteRead>|
        #[trigger] run(e.pending(), ReaderState::Cancelled, reads).len() == 0
}

proof fn lemma_engine_laws(e: ReaderEngine)
    ensures
        engine_laws(e),
{
    assert forall|reads: Seq<ByteRead>|
        #[trigger] run(e.pending(), e.spec_state(), reads) == run(e.pending(), e.spec_state(), without_timeouts(reads)) by {
        lemma_timeouts_change_nothing(e.pending(), e.spec_state(), reads);
    }
    assert forall|reads: Seq<ByteRead>|
        #[trigger] run(e.pending(), ReaderState::Cancelled, reads).len() == 0 by {
        lemma_stopped_emits_nothing(e.pending(), ReaderState::Cancelled, reads);
    }
}

/// Starts a reader on `path`, which is open with no active reader, from the
/// outcome of duplicating its handle. A duplicated handle gets a new
/// cancellation channel, whose sender is stored in the session, and is
/// returned with the receiver and a fresh engine. A failure queues a
/// `Disconnected` notice for `path` and becomes `CloneError` with its cause.
pub fn start_reader<H>(
    registry: &mut Registry<H>,
    path: String,
    duplicated: Result<H, String>,
    notices: &mut Vec<Notice>,
) -> (r: Result<Option<ReaderTask<H>>, PortError>)
    requires
        old(registry).wf(),
        has_path(old(registry)@, path@),
        !old(registry)@[index_of(old(registry)@, path@)].is_reading(),
    ensures
        final(registry).wf(),
        match duplicated {
            Ok(h) => {
                let i = index_of(old(registry)@, path@);
                &&& r matches Ok(Some(task)) && task.handle == h && task.path@ == path@
                    && task.engine.is_running() && task.engine.pending() == Seq::<u8>::empty()
                    && engine_laws(task.engine)
                &&& final(registry)@.len() == old(registry)@.len()
                &&& final(registry)@[i].path == old(registry)@[i].path
                &&& final(registry)@[i].handle == old(registry)@[i].handle
                &&& final(registry)@[i].is_reading()
                &&& forall|j: int|
                    0 <= j < old(registry)@.len() && j != i ==> #[trigger] final(registry)@[j]
                        == old(registry)@[j]
                &&& final(notices)@ == old(notices)@
            },
            Err(c) => {
                &&& r == Err::<Option<ReaderTask<H>>, PortError>(PortError::CloneError(path, c))
                &&& final(registry)@ == old(registry)@
                &&& final(notices)@ == old(notices)@.push(Notice::Disconnected(path))
            },
        },
{
    match duplicated {
        Ok(handle) => {
            let i = match registry.find(&path) {
                Some(i) => i,
                None => {
                    return Err(PortError::NotFound(path));
                },
            };
            let ghost before = registry@;
            proof {
                lemma_found_index(before, path@, i as int);
            }
            let (sender, cancel) = cancel_channel();
            let mut session = registry.take(i);
            session.sender = Some(sender);
            registry.put_back(i, session);
            proof {
                assert(registry@ =~= before.update(i as int, session));
                lemma_update_keeps_distinct(before, i as int, session);
            }
            let engine = ReaderEngine::new();
            proof {
                lemma_engine_laws(engine);
            }
            Ok(Some(ReaderTask { path, handle, cancel, engine }))
        },
        Err(cause) => {
            notices.push(Notice::Disconnected(path.clone()));
            Err(PortError::CloneError(path, cause))
        },
    }
}

/// Starts a reader for `path`. When one is already active this does nothing
/// and returns `Ok(None)`. Otherwise the handle is duplicated: on success a
/// new cancellation channel is made, its sender stored in the session, and
/// the task to run is returned; on failure a `Disconnected` notice for `path`
/// is queued and `CloneError` returned. `timeout` and `size` are accepted and
/// not used. Fails with `NotFound` when `path` is not open.
pub fn read<H: PortHandle>(
    registry: &mut Registry<H>,
    path: String,
    timeout: Option<u64>,
    size: Option<usize>,
    notices: &mut Vec<Notice>,
) -> (r: Result<Option<ReaderTask<H>>, PortError>)
    requires
        old(registry).wf(),
    ensures
        final(registry).wf(),
        !has_path(old(registry)@, path@) ==> r == Err::<Option<ReaderTask<H>>, PortError>(
            PortError::NotFound(path),
        ) && final(registry)@ == old(registry)@ && final(notices)@ == old(notices)@,
        has_path(old(registry)@, path@) ==> {
            let i = index_of(old(registry)@, path@);
            if old(registry)@[i].is_reading() {
                &&& r matches Ok(None)
                &&& final(registry)@ == old(registry)@
                &&& final(notices)@ == old(notices)@
            } else {
                match r {
                    Ok(Some(task)) => {
                        &&& task.path@ == path@
                        &&& task.engine.is_running()
                        &&& engine_laws(task.engine)
                        &&& task.engine.pending() == Seq::<u8>::empty()
                        &&& final(registry)@.len() == old(registry)@.len()
                        &&& final(registry)@[i].path == old(registry)@[i].path
                        &&& final(registry)@[i].handle == old(registry)@[i].handle
                        &&& final(registry)@[i].is_reading()
                        &&& forall|j: int|
                            0 <= j < old(registry)@.len() && j != i ==> #[trigger] final(registry)@[j] == old(registry)@[j]
                        &&& final(notices)@ == old(notices)@
                    },
                    Ok(None) => false,
                    Err(e) => {
                        &&& final(registry)@ == old(registry)@
                        &&& final(notices)@ == old(notices)@.push(Notice::Disconnected(path))
                        &&& match e {
                            PortError::CloneError(p, _) => p@ == path@,
                            _ => false,
                        }
                    },
                }
            }
        },
{
    match registry.find(&path) {
        Some(i) => {
            proof {
                lemma_found_index(registry@, path@, i as int);
            }
            let session = registry.session(i);
            if session.sender.is_some() {
                return Ok(None);
            }
            let duplicated = session.handle.duplicate();
            start_reader(registry, path, duplicated, notices)
        },
        None => Err(PortError::NotFound(path)),
    }
}

/// Writes `data` to the device of `path` and returns how many bytes went out.
/// On a device fault a `Disconnected` notice for `path` is queued and
/// `WriteError` returned. Fails with `NotFound` when `path` is not open.
fn write_payload<H: PortHandle>(
    registry: &mut Registry<H>,
    path: String,
    data: &[u8],
    notices: &mut Vec<Notice>,
) -> (r: Result<usize, PortError>)
    requires
        old(registry).wf(),
    ensures
        final(registry).wf(),
        !has_path(old(registry)@, path@) ==> r == Err::<usize, PortError>(PortError::NotFound(path))
            && final(registry)@ == old(registry)@ && final(notices)@ == old(notices)@,
        has_path(old(registry)@, path@) ==> {
            &&& written_at(old(registry)@, final(registry)@, index_of(old(registry)@, path@))
            &&& match r {
                Ok(_) => final(notices)@ == old(notices)@,
                Err(e) => {
                    &&& final(notices)@ == old(notices)@.push(Notice::Disconnected(path))
                    &&& match e {
                        PortError::WriteError(p, _) => p@ == path@,
                        _ => false,
                    }
                },
            }
        },
{
    match registry.find(&path) {
        Some(i) => {
            let ghost before = registry@;
            let mut session = registry.take(i);
            let outcome = session.handle.write_bytes(data);
            registry.put_back(i, session);
            proof {
                lemma_found_index(before, path@, i as int);
                assert(registry@ =~= before.update(i as int, session));
                lemma_update_keeps_distinct(before, i as int, session);
            }
            finish_write(path, outcome, notices)
        },
        None => Err(PortError::NotFound(path)),
    }
}

/// Turns the device's answer to a write on `path` into the command's result:
/// a count is returned as it is; a fault queues a `Disconnected` notice for
/// `path` and becomes `WriteError` with its cause.
pub fn finish_write(path: String, outcome: Result<usize, String>, notices: &mut Vec<Notice>) -> (r:
    Result<usize, PortError>)
    ensures
        match outcome {
            Ok(n) => r == Ok::<usize, PortError>(n) && final(notices)@ == old(notices)@,
            Err(c) => r == Err::<usize, PortError>(PortError::WriteError(path, c)) && final(notices)@
                == old(notices)@.push(Notice::Disconnected(path)),
        },
{
    match outcome {
        Ok(n) => Ok(n),
        Err(cause) => {
            notices.push(Notice::Disconnected(path.clone()));
            Err(PortError::WriteError(path, cause))
        },
    }
}

/// Writes the UTF-8 bytes of `value`; see `write_binary` for the outcomes.
pub fn write<H: PortHandle>(
    registry: &mut Registry<H>,
    path: String,
    value: String,
    notices: &mut Vec<Notice>,
) -> (r: Result<usize, PortError>)
    requires
        old(registry).wf(),
    ensures
        final(registry).wf(),
        !has_path(old(registry)@, path@) ==> r == Err::<usize, PortError>(PortError::NotFound(path))
            && final(registry)@ == old(registry)@ && final(notices)@ == old(notices)@,
        has_path(old(registry)@, path@) ==> {
            &&& written_at(old(registry)@, final(registry)@, index_of(old(registry)@, path@))
            &&& match r {
                Ok(_) => final(notices)@ == old(notices)@,
                Err(e) => {
                    &&& final(notices)@ == old(notices)@.push(Notice::Disconnected(path))
                    &&& match e {
                        PortError::WriteError(p, _) => p@ == path@,
                        _ => false,
                    }
                },
            }
        },
{
    write_payload(registry, path, value.as_str().as_bytes(), notices)
}

/// Writes `value` to the device of `path` and returns how many bytes went
/// out. On a device fault a `Disconnected` notice for `path` is queued and
/// `WriteError` returned. Fails with `NotFound` when `path` is not open.
pub fn write_binary<H: PortHandle>(
    registry: &mut Registry<H>,
    path: String,
    value: Vec<u8>,
    notices: &mut Vec<Notice>,
) -> (r: Result<usize, PortError>)
    requires
        old(registry).wf(),
    ensures
        final(registry).wf(),
        !has_path(old(registry)@, path@) ==> r == Err::<usize, PortError>(PortError::NotFound(path))
            && final(registry)@ == old(registry)@ && final(notices)@ == old(notices)@,
        has_path(old(registry)@, path@) ==> {
            &&& written_at(old(registry)@, final(registry)@, index_of(old(registry)@, path@))
            &&& match r {
                Ok(_) => final(notices)@ == old(notices)@,
                Err(e) => {
                    &&& final(notices)@ == old(notices)@.push(Notice::Disconnected(path))
                    &&& match e {
                        PortError::WriteError(p, _) => p@ == path@,
                        _ => false,
                    }
                },
            }
        },
{
    write_payload(registry, path, value.as_slice(), notices)
}

} // verus!
