use vstd::prelude::*;

use crate::errors::Error;
use crate::pipe_path::CANDIDATE_COUNT;

verus! {

/// Candidate `index` has a live endpoint in the simulated pipe namespace
/// `endpoints` (one entry per candidate index; a missing entry means the
/// endpoint does not exist).
pub open spec fn endpoint_present(endpoints: Seq<bool>, index: int) -> bool {
    &&& 0 <= index < CANDIDATE_COUNT
    &&& index < endpoints.len()
    &&& endpoints[index]
}

/// The first candidate index at or after `start` whose endpoint is present,
/// if the probe range holds one.
pub open spec fn first_present_from(endpoints: Seq<bool>, start: int) -> Option<int>
    decreases CANDIDATE_COUNT - start,
{
    if start < 0 || start >= CANDIDATE_COUNT {
        None
    } else if endpoint_present(endpoints, start) {
        Some(start)
    } else {
        first_present_from(endpoints, start + 1)
    }
}

/// The candidate index that sequential probing binds to: the least index in
/// the probe range whose endpoint is present, if any is.
pub open spec fn first_present(endpoints: Seq<bool>) -> Option<int> {
    first_present_from(endpoints, 0)
}

proof fn lemma_first_present_from_at(endpoints: Seq<bool>, start: int, index: int)
    requires
        0 <= start <= index,
        endpoint_present(endpoints, index),
        forall|j: int| start <= j < index ==> !endpoint_present(endpoints, j),
    ensures
        first_present_from(endpoints, start) == Some(index),
    decreases index - start,
{
    if start < index {
        lemma_first_present_from_at(endpoints, start + 1, index);
    }
}

proof fn lemma_first_present_from_none(endpoints: Seq<bool>, start: int)
    requires
        forall|j: int| start <= j ==> !endpoint_present(endpoints, j),
    ensures
        first_present_from(endpoints, start) is None,
    decreases CANDIDATE_COUNT - start,
{
    if 0 <= start && start < CANDIDATE_COUNT {
        lemma_first_present_from_none(endpoints, start + 1);
    }
}

/// The probe's next move, as decided after one candidate has been attempted.
///
/// Both connects — the one verified here over a namespace value, and an
/// embedding's over the real pipe tree — drive their loop through
/// [`probe_next`], so the discovery decisions are made in one, verified,
/// place; only the open attempt itself differs.
#[derive(Clone, Copy, Debug, PartialEq, Eq, Structural)]
pub enum ProbeStep {
    /// The attempt succeeded: keep the handle, bound to this candidate, and
    /// try no further candidate.
    Bind(usize),
    /// The attempt failed: try the candidate with this index next.
    Try(usize),
    /// The attempt failed and no candidate is left: the probe range is
    /// exhausted and the connect fails.
    Exhausted,
}

/// Decides the probe's next move once candidate `index` has been attempted,
/// with `opened` saying whether the open succeeded: bind to the first
/// success, otherwise move to the next candidate in ascending order until
/// the probe range runs out.
pub fn probe_next(index: usize, opened: bool) -> (r: ProbeStep)
    requires
        index < CANDIDATE_COUNT,
    ensures
        opened ==> r == ProbeStep::Bind(index),
        !opened && index + 1 < CANDIDATE_COUNT ==> r == ProbeStep::Try((index + 1) as usize),
        !opened && index + 1 == CANDIDATE_COUNT ==> r == ProbeStep::Exhausted,
{
    if opened {
        ProbeStep::Bind(index)
    } else if index + 1 < CANDIDATE_COUNT {
        ProbeStep::Try(index + 1)
    } else {
        ProbeStep::Exhausted
    }
}

/// The connect-time guard: a client that already holds a handle rejects a
/// second connect rather than silently leaking the first. Both connects run
/// it before probing.
pub fn connect_precheck(connected: bool) -> (r: Result<(), Error>)
    ensures
        connected ==> r == Err::<(), Error>(Error::AlreadyConnected),
        !connected ==> r == Ok::<(), Error>(()),
{
    if connected {
        Err(Error::AlreadyConnected)
    } else {
        Ok(())
    }
}

/// The bytes of the courtesy close message, as the host expects them: the
/// close opcode (2) as a little-endian 32-bit word, the payload length (2)
/// as a little-endian 32-bit word, then the empty JSON payload `{}`
/// (bytes 0x7b, 0x7d).
pub open spec fn courtesy_close_frame() -> Seq<u8> {
    seq![2u8, 0u8, 0u8, 0u8, 2u8, 0u8, 0u8, 0u8, 123u8, 125u8]
}

/// Relies on `serde_json`'s `Display` implementation for `Value`: an empty
/// JSON object serializes to exactly `{}`, and serializing a `Value` never
/// fails.
#[verifier::external_body]
fn empty_json_object_bytes() -> (r: Vec<u8>)
    ensures
        r@ == seq![123u8, 125u8],
{
    serde_json::Value::Object(serde_json::Map::new()).to_string().into_bytes()
}

/// Builds the courtesy close message: an empty structured payload tagged
/// with the fixed close opcode, framed as the host expects it.
pub fn close_message() -> (r: Vec<u8>)
    ensures
        r@ == courtesy_close_frame(),
{
    let payload = empty_json_object_bytes();
    let mut frame: Vec<u8> = Vec::new();
    frame.push(2u8);
    frame.push(0u8);
    frame.push(0u8);
    frame.push(0u8);
    let payload_len = payload.len();
    frame.push(payload_len as u8);
    frame.push(0u8);
    frame.push(0u8);
    frame.push(0u8);
    frame.push(payload[0]);
    frame.push(payload[1]);
    proof {
        assert(frame@ =~= courtesy_close_frame());
    }
    frame
}

/// If an endpoint is present at exactly one candidate index, sequential
/// probing binds to that candidate, wherever it lies in the probe order.
pub proof fn lemma_unique_endpoint_is_found(endpoints: Seq<bool>, index: int)
    requires
        endpoint_present(endpoints, index),
        forall|j: int| endpoint_present(endpoints, j) ==> j == index,
    ensures
        first_present(endpoints) == Some(index),
{
    lemma_first_present_from_at(endpoints, 0, index);
}

/// Round-trip fidelity on an echoing peer. A fresh connection starts with
/// nothing written and nothing pending, so after `write(data)` the wire holds
/// exactly `Seq::empty() + data`; an echoing peer drains that and delivers it
/// back, so exactly the same sequence is pending; a read of `data.len()`
/// bytes then returns the pending prefix of that length and consumes it.
/// This lemma states that the bytes so read are `data` itself — no byte
/// reordered, none truncated — and that the stream is left empty.
pub proof fn lemma_echo_round_trip(data: Seq<u8>)
    ensures
        (Seq::<u8>::empty() + data).take(data.len() as int) == data,
        (Seq::<u8>::empty() + data).skip(data.len() as int) == Seq::<u8>::empty(),
{
    assert((Seq::<u8>::empty() + data).take(data.len() as int) =~= data);
    assert((Seq::<u8>::empty() + data).skip(data.len() as int) =~= Seq::<u8>::empty());
}

/// If no candidate index has a live endpoint, probing finds none, however
/// the namespace is laid out.
pub proof fn lemma_no_endpoint_none_found(endpoints: Seq<bool>)
    requires
        forall|j: int| !endpoint_present(endpoints, j),
    ensures
        first_present(endpoints) is None,
{
    lemma_first_present_from_none(endpoints, 0);
}

/// The transport's model of one open duplex pipe handle: which candidate it
/// bound to, the bytes each side has put on the wire, and whether the peer is
/// still accepting writes and flushes. The embedding that talks to the real
/// OS pipe keeps its platform handle outside the verified core and mirrors
/// this session logic; a simulated peer drives these fields directly.
struct PipeEndpoint {
    /// The candidate index the handle was opened under.
    index: usize,
    /// Bytes the peer has delivered and the client has not read yet.
    inbound: Vec<u8>,
    /// Bytes the client has written on the pipe, in order.
    sent: Vec<u8>,
    /// Whether the peer accepts further writes.
    accept_writes: bool,
    /// Whether flushing buffered output on the handle succeeds.
    accept_flush: bool,
}

/// A client for the presence host's IPC channel.
///
/// Created disconnected; holds an open handle if and only if a connection
/// attempt has succeeded and nothing has replaced it since. A second connect
/// while a handle is held is rejected with [`Error::AlreadyConnected`] rather
/// than silently leaking the prior handle.
pub struct DiscordIpcClient {
    /// Client ID of the IPC client. Opaque to the transport: only the
    /// protocol layer above reads it, for its handshake payload.
    pub client_id: String,
    socket: Option<PipeEndpoint>,
}

impl DiscordIpcClient {
    /// The client ID, as the character sequence it was created with.
    pub closed spec fn id(&self) -> Seq<char> {
        self.client_id@
    }

    /// A connection attempt has succeeded and nothing has invalidated it.
    pub closed spec fn connected(&self) -> bool {
        self.socket is Some
    }

    /// The candidate index the open handle is bound to.
    pub closed spec fn bound_candidate(&self) -> int {
        self.socket->Some_0.index as int
    }

    /// Bytes the peer has delivered and the client has not read yet.
    pub closed spec fn pending(&self) -> Seq<u8> {
        self.socket->Some_0.inbound@
    }

    /// Bytes the client has written on the pipe, in order.
    pub closed spec fn sent(&self) -> Seq<u8> {
        self.socket->Some_0.sent@
    }

    /// Whether the peer accepts further writes.
    pub closed spec fn peer_accepts_writes(&self) -> bool {
        self.socket->Some_0.accept_writes
    }

    /// Whether flushing buffered output on the handle succeeds.
    pub closed spec fn peer_accepts_flush(&self) -> bool {
        self.socket->Some_0.accept_flush
    }

    /// The identity of the session is as in `pre`: same client ID, same
    /// connection state, and, while connected, the same bound candidate and
    /// the same peer disposition.
    pub open spec fn keeps_session(&self, pre: &Self) -> bool {
        &&& self.id() == pre.id()
        &&& self.connected() == pre.connected()
        &&& (pre.connected() ==> {
            &&& self.bound_candidate() == pre.bound_candidate()
            &&& self.peer_accepts_writes() == pre.peer_accepts_writes()
            &&& self.peer_accepts_flush() == pre.peer_accepts_flush()
        })
    }

    /// Creates a new `DiscordIpcClient`, disconnected.
    pub fn new(client_id: &str) -> (r: Self)
        ensures
            r.id() == client_id@,
            !r.connected(),
    {
        DiscordIpcClient { client_id: client_id.to_owned(), socket: None }
    }

    /// The client ID this client was created with.
    pub fn get_client_id(&self) -> (r: &String)
        ensures
            r@ == self.id(),
    {
        &self.client_id
    }

    /// Probes the candidate endpoints in index order and binds to the first
    /// that is live.
    ///
    /// `endpoints` describes the pipe namespace the probe runs against:
    /// candidate `i` exists if and only if `endpoints[i]` is true. Candidates
    /// are tried from index 0 upward; the first live one is opened (read and
    /// write, no creation) and kept, and no further candidate is tried. If
    /// every candidate in the probe range is absent, the attempt fails with
    /// [`Error::IPCConnectionFailed`] and the client stays disconnected. A
    /// connect while already connected is rejected with
    /// [`Error::AlreadyConnected`] and changes nothing.
    pub fn connect_ipc(&mut self, endpoints: &Vec<bool>) -> (r: Result<(), Error>)
        ensures
            old(self).connected() ==> {
                &&& r == Err::<(), Error>(Error::AlreadyConnected)
                &&& *final(self) == *old(self)
            },
            !old(self).connected() && first_present(endpoints@) is Some ==> {
                &&& r == Ok::<(), Error>(())
                &&& final(self).connected()
                &&& final(self).bound_candidate() == first_present(endpoints@)->Some_0
                &&& final(self).pending() == Seq::<u8>::empty()
                &&& final(self).sent() == Seq::<u8>::empty()
                &&& final(self).peer_accepts_writes()
                &&& final(self).peer_accepts_flush()
                &&& final(self).id() == old(self).id()
            },
            !old(self).connected() && first_present(endpoints@) is None ==> {
                &&& r == Err::<(), Error>(Error::IPCConnectionFailed)
                &&& *final(self) == *old(self)
            },
    {
        if let Err(e) = connect_precheck(self.socket.is_some()) {
            return Err(e);
        }
        let mut index: usize = 0;
        loop
            invariant
                index < CANDIDATE_COUNT,
                forall|j: int| 0 <= j < index ==> !endpoint_present(endpoints@, j),
                *self == *old(self),
                !self.connected(),
            decreases CANDIDATE_COUNT - index,
        {
            let opened = index < endpoints.len() && endpoints[index];
            match probe_next(index, opened) {
                ProbeStep::Bind(bound) => {
                    proof {
                        lemma_first_present_from_at(endpoints@, 0, index as int);
                    }
                    self.socket = Some(
                        PipeEndpoint {
                            index: bound,
                            inbound: Vec::new(),
                            sent: Vec::new(),
                            accept_writes: true,
                            accept_flush: true,
                        },
                    );
                    return Ok(());
                },
                ProbeStep::Try(next) => {
                    index = next;
                },
                ProbeStep::Exhausted => {
                    proof {
                        lemma_first_present_from_none(endpoints@, 0);
                    }
                    return Err(Error::IPCConnectionFailed);
                },
            }
        }
    }

    /// Writes the entire buffer to the pipe.
    ///
    /// Requires an established connection: on a client that never connected
    /// (or whose connect failed) nothing happens and
    /// [`Error::NotConnected`] comes back. The write is all-or-nothing: if
    /// the peer accepts it, every byte of `data` goes on the wire in order,
    /// after everything written before; if the peer refuses, nothing is
    /// delivered and [`Error::WriteError`] surfaces the failure.
    pub fn write(&mut self, data: &[u8]) -> (r: Result<(), Error>)
        ensures
            !old(self).connected() ==> {
                &&& r == Err::<(), Error>(Error::NotConnected)
                &&& *final(self) == *old(self)
            },
            old(self).connected() && !old(self).peer_accepts_writes() ==> {
                &&& r == Err::<(), Error>(Error::WriteError)
                &&& *final(self) == *old(self)
            },
            old(self).connected() && old(self).peer_accepts_writes() ==> {
                &&& r == Ok::<(), Error>(())
                &&& final(self).sent() == old(self).sent() + data@
                &&& final(self).pending() == old(self).pending()
                &&& final(self).keeps_session(old(self))
            },
    {
        match self.socket.take() {
            None => Err(Error::NotConnected),
            Some(mut endpoint) => {
                if !endpoint.accept_writes {
                    self.socket = Some(endpoint);
                    return Err(Error::WriteError);
                }
                let mut i: usize = 0;
                while i < data.len()
                    invariant
                        i <= data.len(),
                        endpoint.sent@ == old(self).sent() + data@.take(i as int),
                        endpoint.inbound@ == old(self).pending(),
                        endpoint.index as int == old(self).bound_candidate(),
                        endpoint.accept_writes == old(self).peer_accepts_writes(),
                        endpoint.accept_flush == old(self).peer_accepts_flush(),
                        self.client_id@ == old(self).id(),
                    decreases data.len() - i,
                {
                    endpoint.sent.push(data[i]);
                    i = i + 1;
                }
                proof {
                    assert(data@.take(data@.len() as int) =~= data@);
                }
                self.socket = Some(endpoint);
                Ok(())
            },
        }
    }

    /// Fills the whole buffer with the next bytes from the pipe.
    ///
    /// Requires an established connection: on a client that never connected
    /// (or whose connect failed) nothing happens and
    /// [`Error::NotConnected`] comes back. The read is exact-length: it
    /// returns the next `buffer.len()` pending bytes, in arrival order, and
    /// consumes them; it never returns a short read. If the stream holds
    /// fewer bytes than requested, [`Error::ReadError`] comes back and both
    /// the buffer and the stream are left as they were. The caller is
    /// responsible for knowing how many bytes to request; no framing is
    /// interpreted here.
    pub fn read(&mut self, buffer: &mut Vec<u8>) -> (r: Result<(), Error>)
        ensures
            !old(self).connected() ==> {
                &&& r == Err::<(), Error>(Error::NotConnected)
                &&& *final(self) == *old(self)
                &&& *final(buffer) == *old(buffer)
            },
            old(self).connected() && old(self).pending().len() < old(buffer)@.len() ==> {
                &&& r == Err::<(), Error>(Error::ReadError)
                &&& *final(self) == *old(self)
                &&& *final(buffer) == *old(buffer)
            },
            old(self).connected() && old(self).pending().len() >= old(buffer)@.len() ==> {
                &&& r == Ok::<(), Error>(())
                &&& final(buffer)@ == old(self).pending().take(old(buffer)@.len() as int)
                &&& final(self).pending() == old(self).pending().skip(old(buffer)@.len() as int)
                &&& final(self).sent() == old(self).sent()
                &&& final(self).keeps_session(old(self))
            },
    {
        match self.socket.take() {
            None => Err(Error::NotConnected),
            Some(mut endpoint) => {
                let requested = buffer.len();
                if endpoint.inbound.len() < requested {
                    self.socket = Some(endpoint);
                    return Err(Error::ReadError);
                }
                let mut i: usize = 0;
                while i < requested
                    invariant
                        i <= requested,
                        requested == buffer.len(),
                        requested <= endpoint.inbound.len(),
                        endpoint.inbound@ == old(self).pending(),
                        buffer@ == old(buffer)@.map(
                            |k: int, b: u8| (if k < i { old(self).pending()[k] } else { b }),
                        ),
                    decreases requested - i,
                {
                    buffer.set(i, endpoint.inbound[i]);
                    i = i + 1;
                    proof {
                        assert(buffer@ =~= old(buffer)@.map(
                            |k: int, b: u8| (if k < i { old(self).pending()[k] } else { b }),
                        ));
                    }
                }
                proof {
                    assert(buffer@ =~= old(self).pending().take(requested as int));
                }
                let mut rest: Vec<u8> = Vec::new();
                let mut j: usize = requested;
                while j < endpoint.inbound.len()
                    invariant
                        requested <= j <= endpoint.inbound.len(),
                        endpoint.inbound@ == old(self).pending(),
                        rest@ == old(self).pending().subrange(requested as int, j as int),
                    decreases endpoint.inbound.len() - j,
                {
                    rest.push(endpoint.inbound[j]);
                    j = j + 1;
                }
                proof {
                    assert(rest@ =~= old(self).pending().skip(requested as int));
                }
                endpoint.inbound = rest;
                self.socket = Some(endpoint);
                Ok(())
            },
        }
    }

    /// Ends the session with a best-effort close handshake.
    ///
    /// Requires an established connection: on a client that never connected,
    /// [`Error::NotConnected`] comes back and nothing happens. Otherwise a
    /// courtesy close message — an empty payload tagged with the fixed close
    /// opcode — is written to the peer; if the peer refuses it, that failure
    /// is deliberately swallowed so that the flush step is always attempted.
    /// The result reports the flush outcome alone: success, or
    /// [`Error::FlushError`]. The handle itself stays held; releasing it is
    /// the owning client's normal destruction.
    pub fn close(&mut self) -> (r: Result<(), Error>)
        ensures
            !old(self).connected() ==> {
                &&& r == Err::<(), Error>(Error::NotConnected)
                &&& *final(self) == *old(self)
            },
            old(self).connected() ==> {
                &&& r == (if old(self).peer_accepts_flush() {
                    Ok::<(), Error>(())
                } else {
                    Err::<(), Error>(Error::FlushError)
                })
                &&& final(self).sent() == old(self).sent() + (if old(
                    self,
                ).peer_accepts_writes() {
                    courtesy_close_frame()
                } else {
                    Seq::<u8>::empty()
                })
                &&& final(self).pending() == old(self).pending()
                &&& final(self).keeps_session(old(self))
            },
    {
        if self.socket.is_none() {
            return Err(Error::NotConnected);
        }
        let frame = close_message();
        let _courtesy = self.write(frame.as_slice());
        proof {
            if !old(self).peer_accepts_writes() {
                assert(self.sent() =~= old(self).sent() + Seq::<u8>::empty());
            }
        }
        match &self.socket {
            Some(endpoint) => {
                if endpoint.accept_flush {
                    Ok(())
                } else {
                    Err(Error::FlushError)
                }
            },
            None => Err(Error::NotConnected),
        }
    }

    /// Reports whether the client currently holds an open handle.
    pub fn is_connected(&self) -> (r: bool)
        ensures
            r == self.connected(),
    {
        self.socket.is_some()
    }

    /// Takes the bytes the client has written, as the simulated peer would
    /// drain them from its end of the pipe: every byte written so far, in
    /// write order, leaving the wire empty.
    pub fn peer_take_sent(&mut self) -> (r: Result<Vec<u8>, Error>)
        ensures
            !old(self).connected() ==> {
                &&& r == Err::<Vec<u8>, Error>(Error::NotConnected)
                &&& *final(self) == *old(self)
            },
            old(self).connected() ==> {
                &&& r is Ok
                &&& r->Ok_0@ == old(self).sent()
                &&& final(self).sent() == Seq::<u8>::empty()
                &&& final(self).pending() == old(self).pending()
                &&& final(self).keeps_session(old(self))
            },
    {
        match self.socket.take() {
            None => Err(Error::NotConnected),
            Some(mut endpoint) => {
                let drained = endpoint.sent;
                endpoint.sent = Vec::new();
                self.socket = Some(endpoint);
                Ok(drained)
            },
        }
    }

    /// Delivers bytes from the simulated peer: they queue up behind whatever
    /// is already pending, in order, for later reads to consume.
    pub fn peer_deliver(&mut self, bytes: &[u8]) -> (r: Result<(), Error>)
        ensures
            !old(self).connected() ==> {
                &&& r == Err::<(), Error>(Error::NotConnected)
                &&& *final(self) == *old(self)
            },
            old(self).connected() ==> {
                &&& r == Ok::<(), Error>(())
                &&& final(self).pending() == old(self).pending() + bytes@
                &&& final(self).sent() == old(self).sent()
                &&& final(self).keeps_session(old(self))
            },
    {
        match self.socket.take() {
            None => Err(Error::NotConnected),
            Some(mut endpoint) => {
                let mut i: usize = 0;
                while i < bytes.len()
                    invariant
                        i <= bytes.len(),
                        endpoint.inbound@ == old(self).pending() + bytes@.take(i as int),
                        endpoint.sent@ == old(self).sent(),
                        endpoint.index as int == old(self).bound_candidate(),
                        endpoint.accept_writes == old(self).peer_accepts_writes(),
                        endpoint.accept_flush == old(self).peer_accepts_flush(),
                        self.client_id@ == old(self).id(),
                    decreases bytes.len() - i,
                {
                    endpoint.inbound.push(bytes[i]);
                    i = i + 1;
                }
                proof {
                    assert(bytes@.take(bytes@.len() as int) =~= bytes@);
                }
                self.socket = Some(endpoint);
                Ok(())
            },
        }
    }

    /// Sets whether the simulated peer accepts further writes.
    pub fn peer_set_accept_writes(&mut self, accept: bool) -> (r: Result<(), Error>)
        ensures
            !old(self).connected() ==> {
                &&& r == Err::<(), Error>(Error::NotConnected)
                &&& *final(self) == *old(self)
            },
            old(self).connected() ==> {
                &&& r == Ok::<(), Error>(())
                &&& final(self).peer_accepts_writes() == accept
                &&& final(self).peer_accepts_flush() == old(self).peer_accepts_flush()
                &&& final(self).connected()
                &&& final(self).bound_candidate() == old(self).bound_candidate()
                &&& final(self).pending() == old(self).pending()
                &&& final(self).sent() == old(self).sent()
                &&& final(self).id() == old(self).id()
            },
    {
        match self.socket.take() {
            None => Err(Error::NotConnected),
            Some(mut endpoint) => {
                endpoint.accept_writes = accept;
                self.socket = Some(endpoint);
                Ok(())
            },
        }
    }

    /// Sets whether flushing on the simulated handle succeeds.
    pub fn peer_set_accept_flush(&mut self, accept: bool) -> (r: Result<(), Error>)
        ensures
            !old(self).connected() ==> {
                &&& r == Err::<(), Error>(Error::NotConnected)
                &&& *final(self) == *old(self)
            },
            old(self).connected() ==> {
                &&& r == Ok::<(), Error>(())
                &&& final(self).peer_accepts_flush() == accept
                &&& final(self).peer_accepts_writes() == old(self).peer_accepts_writes()
                &&& final(self).connected()
                &&& final(self).bound_candidate() == old(self).bound_candidate()
                &&& final(self).pending() == old(self).pending()
                &&& final(self).sent() == old(self).sent()
                &&& final(self).id() == old(self).id()
            },
    {
        match self.socket.take() {
            None => Err(Error::NotConnected),
            Some(mut endpoint) => {
                endpoint.accept_flush = accept;
                self.socket = Some(endpoint);
                Ok(())
            },
        }
    }

    /// The candidate index the open handle is bound to, if connected.
    pub fn connected_index(&self) -> (r: Option<usize>)
        ensures
            self.connected() ==> r is Some && r->Some_0 as int == self.bound_candidate(),
            !self.connected() ==> r is None,
    {
        match &self.socket {
            Some(endpoint) => Some(endpoint.index),
            None => None,
        }
    }
}

} // verus!
