//! Single-instance coordination over a named socket path.
//!
//! One process per application id may hold the instance lock at a time.
//! The lock is realized by binding a listener to a socket path derived
//! from the id; a losing process may instead send a fixed activation
//! payload to the listener, asking the holder to foreground itself.
//!
//! The coordination protocol is stated and verified here against
//! [`SocketSpace`], a model of the runtime directory's socket namespace:
//! which paths have a socket file on disk, and which have a live listener
//! bound. The shell that performs the real socket calls follows the same
//! steps, handing each outcome to the functions here.

use vstd::prelude::*;

use crate::pathtable::PathTable;

verus! {

/// Another process already holds the instance lock.
#[derive(Clone, Copy, Debug, PartialEq, Eq, Structural)]
pub struct AlreadyRunning;

/// Why an activation message could not be delivered.
#[derive(Clone, Copy, Debug, PartialEq, Eq, Structural)]
pub enum SendError {
    /// Nothing listens on the instance path: no other instance is running,
    /// or it exited just now. Callers treat this as a soft failure.
    NoListener,
}

/// The socket path derived from a runtime directory and an application id.
pub open spec fn socket_path_spec(dir: Seq<char>, app_id: Seq<char>) -> Seq<char> {
    dir + "/"@ + app_id + ".sock"@
}

/// Whether a namespace with these live listeners admits acquiring the
/// lock at path `p`: it does exactly when no live listener is bound
/// there. Socket files play no part in the decision.
pub open spec fn admits_acquire(listeners: Set<Seq<char>>, p: Seq<char>) -> bool {
    !listeners.contains(p)
}

/// Whether one connection's bytes ask for activation: at least the
/// sentinel's eight bytes were read and the leading eight are exactly the
/// sentinel.
pub open spec fn triggers_activation(buf: Seq<u8>, read_len: int) -> bool {
    read_len >= 8 && buf.subrange(0, 8) == activation_sentinel()
}

/// Derive the socket path: `<dir>/<app_id>.sock`.
pub fn socket_path(dir: &str, app_id: &str) -> (r: String)
    ensures
        r@ == socket_path_spec(dir@, app_id@),
{
    let mut out = String::new();
    out.append(dir);
    out.append("/");
    out.append(app_id);
    out.append(".sock");
    out
}

/// Which directory the socket path lives under: the runtime directory if
/// set, else the temporary directory if set, else `/tmp`.
pub fn choose_runtime_dir(xdg_runtime_dir: Option<String>, tmpdir: Option<String>) -> (r: String)
    ensures
        (match xdg_runtime_dir {
            Some(d) => r@ == d@,
            None => match tmpdir {
                Some(t) => r@ == t@,
                None => r@ == "/tmp"@,
            },
        }),
{
    match xdg_runtime_dir {
        Some(d) => d,
        None => match tmpdir {
            Some(t) => t,
            None => {
                let mut out = String::new();
                out.append("/tmp");
                proof {
                    assert(Seq::<char>::empty() + "/tmp"@ =~= "/tmp"@);
                }
                out
            },
        },
    }
}

/// A model of the runtime directory's socket namespace: which paths have a
/// socket file on disk, and which have a live listener bound. Removing a
/// file does not end a listener bound through it, exactly as unlinking a
/// bound unix socket does not; a listener whose process died leaves a
/// stale file with no listener.
pub struct SocketSpace {
    files: PathTable,
    listeners: PathTable,
}

impl SocketSpace {
    /// Both tables hold each path at most once.
    pub closed spec fn wf(self) -> bool {
        self.files.wf() && self.listeners.wf()
    }

    /// The paths with a socket file on disk.
    pub closed spec fn files_set(self) -> Set<Seq<char>> {
        self.files.as_set()
    }

    /// The paths with a live listener bound.
    pub closed spec fn listeners_set(self) -> Set<Seq<char>> {
        self.listeners.as_set()
    }

    /// An empty namespace: no files, no listeners.
    pub fn new() -> (r: SocketSpace)
        ensures
            r.wf(),
            r.files_set() == Set::<Seq<char>>::empty(),
            r.listeners_set() == Set::<Seq<char>>::empty(),
    {
        SocketSpace { files: PathTable::new(), listeners: PathTable::new() }
    }

    /// Probe a path as connecting to it would: a connection is accepted
    /// exactly when a live listener is bound there.
    pub fn probe_connect(&self, path: &str) -> (r: bool)
        ensures
            r == self.listeners_set().contains(path@),
    {
        self.listeners.contains(path)
    }

    /// Remove the socket file at a path, as unlinking does: a listener
    /// bound there, if any, stays alive.
    pub fn remove_file(&mut self, path: &str)
        requires
            old(self).wf(),
        ensures
            final(self).wf(),
            final(self).files_set() == old(self).files_set().remove(path@),
            final(self).listeners_set() == old(self).listeners_set(),
    {
        self.files.remove_path(path);
    }

    /// Bind a listener at a path, as the socket bind call does: refused
    /// when a file is already present there; otherwise the file is created
    /// and the listener is live.
    pub fn bind_listener(&mut self, path: &str) -> (r: Result<(), AlreadyRunning>)
        requires
            old(self).wf(),
        ensures
            final(self).wf(),
            (if old(self).files_set().contains(path@) {
                r == Err::<(), AlreadyRunning>(AlreadyRunning) && *final(self) == *old(self)
            } else {
                r == Ok::<(), AlreadyRunning>(()) && final(self).files_set() == old(
                    self,
                ).files_set().insert(path@) && final(self).listeners_set() == old(
                    self,
                ).listeners_set().insert(path@)
            }),
    {
        if self.files.contains(path) {
            return Err(AlreadyRunning);
        }
        self.files.insert_path(path);
        self.listeners.insert_path(path);
        Ok(())
    }

    /// The holder's process dies without cleanup: the operating system
    /// ends its listener, but the socket file stays behind as a stale
    /// file.
    pub fn crash_holder(&mut self, path: &str)
        requires
            old(self).wf(),
        ensures
            final(self).wf(),
            final(self).files_set() == old(self).files_set(),
            final(self).listeners_set() == old(self).listeners_set().remove(path@),
    {
        self.listeners.remove_path(path);
    }

    /// End the listener at a path and remove its file, as dropping the
    /// guard of a held lock does.
    pub fn close_listener(&mut self, path: &str)
        requires
            old(self).wf(),
        ensures
            final(self).wf(),
            final(self).files_set() == old(self).files_set().remove(path@),
            final(self).listeners_set() == old(self).listeners_set().remove(path@),
    {
        self.listeners.remove_path(path);
        self.files.remove_path(path);
    }
}

/// The guard of a held instance lock: it records the socket path whose
/// listener realizes the lock, and sole ownership of that listener.
pub struct SingleInstance {
    pub path: String,
}

impl SingleInstance {
    /// Attempt to take the instance lock for `app_id` under `runtime_dir`.
    ///
    /// The attempt succeeds exactly when no live listener is bound at the
    /// derived path: a connection probe answered by a listener means
    /// another instance is running; otherwise any stale file left by a
    /// crashed holder is removed and a fresh listener is bound.
    pub fn acquire(space: &mut SocketSpace, runtime_dir: &str, app_id: &str) -> (r: Result<
        SingleInstance,
        AlreadyRunning,
    >)
        requires
            old(space).wf(),
        ensures
            final(space).wf(),
            (match r {
                Ok(guard) => {
                    &&& admits_acquire(
                        old(space).listeners_set(),
                        socket_path_spec(runtime_dir@, app_id@),
                    )
                    &&& guard.path@ == socket_path_spec(runtime_dir@, app_id@)
                    &&& final(space).listeners_set() == old(space).listeners_set().insert(
                        guard.path@,
                    )
                    &&& final(space).files_set() == old(space).files_set().insert(guard.path@)
                },
                Err(e) => {
                    &&& e == AlreadyRunning
                    &&& !admits_acquire(
                        old(space).listeners_set(),
                        socket_path_spec(runtime_dir@, app_id@),
                    )
                    &&& *final(space) == *old(space)
                },
            }),
    {
        let path = socket_path(runtime_dir, app_id);
        if space.probe_connect(path.as_str()) {
            return Err(AlreadyRunning);
        }
        space.remove_file(path.as_str());
        match space.bind_listener(path.as_str()) {
            Ok(()) => {
                proof {
                    lemma_remove_then_insert(old(space).files_set(), path@);
                }
                Ok(SingleInstance { path })
            },
            Err(e) => {
                // after the stale file is removed, the model's bind cannot
                // be refused; the real call can lose this race, which the
                // shell reports the same way
                proof {
                    assert(!old(space).files_set().remove(path@).contains(path@));
                }
                Err(e)
            },
        }
    }

    /// Give the lock up: the listener ends and the socket file is removed,
    /// so a later `acquire` for the same id succeeds again.
    pub fn release(self, space: &mut SocketSpace)
        requires
            old(space).wf(),
        ensures
            final(space).wf(),
            final(space).listeners_set() == old(space).listeners_set().remove(self.path@),
            final(space).files_set() == old(space).files_set().remove(self.path@),
    {
        space.close_listener(self.path.as_str());
    }
}

/// The fixed activation payload, as a byte sequence: the ASCII bytes of
/// the word `activate`.
pub open spec fn activation_sentinel() -> Seq<u8> {
    seq![97u8, 99u8, 116u8, 105u8, 118u8, 97u8, 116u8, 101u8]
}

/// The payload a losing process writes to the listener.
pub fn activation_payload() -> (r: Vec<u8>)
    ensures
        r@ == activation_sentinel(),
{
    let mut v: Vec<u8> = Vec::new();
    v.push(97);
    v.push(99);
    v.push(116);
    v.push(105);
    v.push(118);
    v.push(97);
    v.push(116);
    v.push(101);
    proof {
        assert(v@ =~= activation_sentinel());
    }
    v
}

/// Whether one accepted connection's bytes ask for activation: at least
/// the sentinel's eight bytes were read and the leading eight are exactly
/// the sentinel. The receiver invokes its callback once per connection
/// for which this holds and ignores every other payload.
pub fn payload_triggers_activation(buf: &[u8], read_len: usize) -> (r: bool)
    requires
        read_len <= buf@.len(),
    ensures
        r == triggers_activation(buf@, read_len as int),
{
    if read_len < 8 {
        return false;
    }
    let r = buf[0] == 97 && buf[1] == 99 && buf[2] == 116 && buf[3] == 105 && buf[4] == 118
        && buf[5] == 97 && buf[6] == 116 && buf[7] == 101;
    proof {
        if r {
            assert(buf@.subrange(0, 8) =~= activation_sentinel());
        } else {
            if buf@.subrange(0, 8) == activation_sentinel() {
                assert(buf@[0] == 97 && buf@[1] == 99 && buf@[2] == 116 && buf@[3] == 105 && buf@[4]
                    == 118 && buf@[5] == 97 && buf@[6] == 116 && buf@[7] == 101) by {
                    let s = buf@.subrange(0, 8);
                    assert(forall|k: int| 0 <= k < 8 ==> #[trigger] s[k] == buf@[k]);
                }
            }
        }
    }
    r
}

/// Send an activation message for `app_id`: delivered exactly when a live
/// listener is bound at the derived path, else refused as a soft failure;
/// what is delivered is the fixed sentinel payload.
pub fn send_activate_to_existing(space: &SocketSpace, runtime_dir: &str, app_id: &str) -> (r:
    Result<Vec<u8>, SendError>)
    ensures
        (match r {
            Ok(payload) => space.listeners_set().contains(socket_path_spec(runtime_dir@, app_id@))
                && payload@ == activation_sentinel(),
            Err(e) => e == SendError::NoListener && !space.listeners_set().contains(
                socket_path_spec(runtime_dir@, app_id@),
            ),
        }),
{
    let path = socket_path(runtime_dir, app_id);
    if space.probe_connect(path.as_str()) {
        Ok(activation_payload())
    } else {
        Err(SendError::NoListener)
    }
}

/// Removing an element and inserting it back yields the same set as
/// inserting it directly.
proof fn lemma_remove_then_insert(s: Set<Seq<char>>, p: Seq<char>)
    ensures
        s.remove(p).insert(p) == s.insert(p),
{
    assert(s.remove(p).insert(p) =~= s.insert(p));
}

/// While a guard from a successful acquisition is alive, its path has a
/// live listener — acquisition inserted it — so a second acquisition
/// attempt for the same id in the same namespace is denied.
pub proof fn lemma_acquire_excludes_second(listeners: Set<Seq<char>>, p: Seq<char>)
    ensures
        !admits_acquire(listeners.insert(p), p),
{
}

/// After the holder releases the lock — release removed the listener its
/// acquisition inserted — an acquisition for the same id is admitted
/// again.
pub proof fn lemma_release_frees(listeners: Set<Seq<char>>, p: Seq<char>)
    ensures
        admits_acquire(listeners.insert(p).remove(p), p),
{
}

/// A stale socket file — a file present with no live listener behind it —
/// does not keep a fresh acquisition from succeeding: acquisition is
/// decided by the listeners alone, whatever the files hold.
pub proof fn lemma_stale_file_not_blocking(
    files: Set<Seq<char>>,
    listeners: Set<Seq<char>>,
    p: Seq<char>,
)
    requires
        files.contains(p),
        !listeners.contains(p),
    ensures
        admits_acquire(listeners, p),
{
}

/// What a delivered send carries is exactly what makes the receiver
/// invoke its callback: the sentinel payload, read whole, asks for
/// activation, so each delivered send triggers one callback invocation.
pub proof fn lemma_sent_payload_activates(payload: Seq<u8>)
    requires
        payload == activation_sentinel(),
    ensures
        triggers_activation(payload, payload.len() as int),
{
    assert(payload.subrange(0, 8) =~= payload);
}

} // verus!
