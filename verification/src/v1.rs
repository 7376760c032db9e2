//! The blocking client: request/response operations and virtual
//! circuits, multiplexed over one pair of frame channels.
//!
//! Inbound frames arrive in an order the caller does not control.  Every
//! blocking call dequeues frames in order, consumes the first one that
//! answers it, and appends every other frame to an overflow queue that
//! later calls consult first.  No inbound frame is ever dropped: each one
//! is either returned to the caller that consumed it or left in the
//! queue.  The ghost `sent` and `received` histories record every frame
//! handed to the writer and taken off the inbound channel, so the
//! contracts below pin both facts down exactly.

use std::sync::mpsc::{Receiver, Sender};

use vstd::prelude::*;
use vstd::seq_lib::*;

use crate::call::{lemma_call_view_injective, Call};
use crate::chan::{chan_recv, chan_recv_deadline, chan_send, chan_sender_clone, RecvOutcome};
use crate::err::AgwError;
use crate::header::{spec_header_bytes, Header};
use crate::packet::{
    is_with_banner, lemma_via_calls_len, pre_with_caps, pre_with_station, spec_packet_bytes,
    spec_via_calls, starts_with, Packet, KIND_CONNECT, KIND_CONNECT_VIA, KIND_DATA,
};
use crate::reply::Reply;
use vstd::utf8::encode_utf8;

verus! {

broadcast use crate::call::lemma_call_view_len;

/// The wait loops below run on a frame budget that no session can
/// exhaust; running out is reported as the engine shutting down.
pub const WAIT_FUEL: u64 = 0xFFFF_FFFF_FFFF_FFFF;

/// Command.
pub enum Command {
    Version,
}

/// The default deadline on a connect's wait for its reply, in
/// milliseconds.
pub const CONNECT_TIMEOUT_MS: u64 = 10_000;

/// Above this many parked frames, whoever runs the engine should emit a
/// diagnostic: some circuit is not being drained.
pub const QUEUE_WARN_LIMIT: usize = 10;

/// The frame answers this circuit.  The host swaps src and dst on
/// inbound circuit frames, so the remote station stands in src.
pub open spec fn entry_for_circuit(e: (Header, Reply), me: Call, remote: Call) -> bool {
    e.0.src == Some(remote) && e.0.dst == Some(me) && (e.1 is ConnectedData || e.1 is Disconnect)
}

/// The frame is a connect reply for the circuit (me -> remote).
pub open spec fn is_connect_reply_for(e: (Header, Reply), me: Call, remote: Call) -> bool {
    e.0.src == Some(remote) && e.0.dst == Some(me) && e.1 is Connected
}

/// Index of the first queued frame of the circuit, or -1 when none.
pub open spec fn find_circuit_entry(q: Seq<(Header, Reply)>, me: Call, remote: Call) -> int
    decreases q.len(),
{
    if q.len() == 0 {
        -1
    } else if entry_for_circuit(q[0], me, remote) {
        0
    } else {
        let r = find_circuit_entry(q.drop_first(), me, remote);
        if r == -1 {
            -1
        } else {
            r + 1
        }
    }
}

/// The circuit's pending data payloads, in queue order, up to its first
/// queued disconnect.
pub open spec fn circuit_datas(q: Seq<(Header, Reply)>, me: Call, remote: Call) -> Seq<Seq<u8>>
    decreases q.len(),
{
    if q.len() == 0 {
        Seq::empty()
    } else if entry_for_circuit(q[0], me, remote) {
        match q[0].1 {
            Reply::ConnectedData(d) => seq![d@] + circuit_datas(q.drop_first(), me, remote),
            _ => Seq::empty(),
        }
    } else {
        circuit_datas(q.drop_first(), me, remote)
    }
}

/// What `find_circuit_entry` finds: the first matching entry, with
/// nothing matching before it.
pub proof fn lemma_find_props(q: Seq<(Header, Reply)>, me: Call, remote: Call)
    ensures
        ({
            let i = find_circuit_entry(q, me, remote);
            &&& -1 <= i < q.len()
            &&& i == -1 ==> forall|j: int|
                0 <= j < q.len() ==> !entry_for_circuit(#[trigger] q[j], me, remote)
            &&& i >= 0 ==> entry_for_circuit(q[i], me, remote) && forall|j: int|
                0 <= j < i ==> !entry_for_circuit(#[trigger] q[j], me, remote)
        }),
    decreases q.len(),
{
    if q.len() != 0 && !entry_for_circuit(q[0], me, remote) {
        let qt = q.drop_first();
        lemma_find_props(qt, me, remote);
        let it = find_circuit_entry(qt, me, remote);
        if it == -1 {
            assert forall|j: int| 0 <= j < q.len() implies !entry_for_circuit(
                #[trigger] q[j],
                me,
                remote,
            ) by {
                if j > 0 {
                    assert(q[j] == qt[j - 1]);
                }
            }
        } else {
            assert(q[it + 1] == qt[it]);
            assert forall|j: int| 0 <= j < it + 1 implies !entry_for_circuit(
                #[trigger] q[j],
                me,
                remote,
            ) by {
                if j > 0 {
                    assert(q[j] == qt[j - 1]);
                }
            }
        }
    }
}

/// A scan that saw no match through `j`, and a match at `j` if `j` is in
/// range, pins the value of `find_circuit_entry` down.
proof fn lemma_find_from_scan(q: Seq<(Header, Reply)>, me: Call, remote: Call, j: int)
    requires
        0 <= j <= q.len(),
        forall|k: int| 0 <= k < j ==> !entry_for_circuit(#[trigger] q[k], me, remote),
        j < q.len() ==> entry_for_circuit(q[j], me, remote),
    ensures
        j < q.len() ==> find_circuit_entry(q, me, remote) == j,
        j == q.len() ==> find_circuit_entry(q, me, remote) == -1,
    decreases q.len(),
{
    if q.len() != 0 && !entry_for_circuit(q[0], me, remote) {
        lemma_find_from_scan(q.drop_first(), me, remote, j - 1);
    }
}

/// Multiplexer ordering: a read served from the overflow queue takes the
/// circuit's first queued data frame, and what remains carries exactly
/// the later payloads.  Repeated reads therefore hand the circuit's data
/// out in wire arrival order.
pub proof fn lemma_read_order(q: Seq<(Header, Reply)>, me: Call, remote: Call)
    requires
        ({
            let i = find_circuit_entry(q, me, remote);
            i >= 0 && q[i].1 is ConnectedData
        }),
    ensures
        ({
            let i = find_circuit_entry(q, me, remote);
            &&& circuit_datas(q, me, remote).len() >= 1
            &&& (q[i].1 matches Reply::ConnectedData(d) ==> d@ == circuit_datas(q, me, remote)[0])
            &&& circuit_datas(q.remove(i), me, remote) == circuit_datas(
                q,
                me,
                remote,
            ).drop_first()
        }),
    decreases q.len(),
{
    let i = find_circuit_entry(q, me, remote);
    lemma_find_props(q, me, remote);
    if i == 0 {
        assert(q.remove(0) =~= q.drop_first());
        assert(circuit_datas(q.remove(0), me, remote) =~= circuit_datas(
            q,
            me,
            remote,
        ).drop_first());
    } else {
        let qt = q.drop_first();
        assert(find_circuit_entry(q, me, remote) == find_circuit_entry(qt, me, remote) + 1);
        lemma_read_order(qt, me, remote);
        assert(q.remove(i).drop_first() =~= qt.remove(i - 1));
        assert(!entry_for_circuit(q.remove(i)[0], me, remote));
        assert(circuit_datas(q.remove(i), me, remote) == circuit_datas(qt.remove(i - 1), me, remote));
    }
}

/// The wire bytes of the connect request: a bare `C` frame when no
/// digipeaters are given, else a `v` frame carrying the hop list.
pub open spec fn spec_connect_frame(port: u8, pid: u8, src: Call, dst: Call, via: Seq<
    Call,
>) -> Seq<u8> {
    if via.len() == 0 {
        spec_header_bytes(
            Header {
                port,
                data_kind: KIND_CONNECT,
                pid,
                src: Some(src),
                dst: Some(dst),
                data_len: 0,
            },
        )
    } else {
        spec_header_bytes(
            Header {
                port,
                data_kind: KIND_CONNECT_VIA,
                pid,
                src: Some(src),
                dst: Some(dst),
                data_len: (1 + spec_via_calls(via).len()) as u32,
            },
        ) + seq![via.len() as u8] + spec_via_calls(via)
    }
}

/// The wire bytes of one connected-data frame.
pub open spec fn spec_data_frame(port: u8, pid: u8, src: Call, dst: Call, d: Seq<u8>) -> Seq<u8> {
    spec_header_bytes(
        Header {
            port,
            data_kind: KIND_DATA,
            pid,
            src: Some(src),
            dst: Some(dst),
            data_len: d.len() as u32,
        },
    ) + d
}

/// Does the optional header field hold exactly this callsign?
fn opt_call_is(o: &Option<Call>, c: &Call) -> (r: bool)
    ensures
        r == (*o == Some(*c)),
{
    match o {
        Some(cc) => {
            let eq = cc.same(c);
            proof {
                if cc@ == c@ {
                    lemma_call_view_injective(*cc, *c);
                }
            }
            eq
        },
        None => false,
    }
}

/// Does the frame belong to the circuit (me <- remote)?
fn entry_matches(h: &Header, rep: &Reply, me: &Call, remote: &Call) -> (r: bool)
    ensures
        r == entry_for_circuit((*h, *rep), *me, *remote),
{
    opt_call_is(&h.src, remote) && opt_call_is(&h.dst, me) && (matches!(rep, Reply::ConnectedData(_))
        || matches!(rep, Reply::Disconnect))
}

/// An object that has all the metadata needed to produce the wire bytes
/// of data or disconnect frames for an established circuit, without
/// holding on to the engine.
pub struct MakeWriter {
    pub port: u8,
    pub pid: u8,
    pub src: Call,
    pub dst: Call,
}

impl MakeWriter {
    /// Both callsigns are valid and present.
    pub open spec fn wf(&self) -> bool {
        self.src.wf() && !self.src.spec_is_empty() && self.dst.wf() && !self.dst.spec_is_empty()
    }

    /// The bytes of one frame carrying `data` on the circuit.
    pub fn data(&self, data: &[u8]) -> (r: Result<Vec<u8>, AgwError>)
        requires
            self.wf(),
            data@.len() <= 0xFFFF_FFFF,
        ensures
            r matches Ok(v) && v@ == spec_data_frame(self.port, self.pid, self.src, self.dst, data@),
    {
        let p = Packet::Data {
            port: self.port,
            pid: self.pid,
            src: self.src,
            dst: self.dst,
            data: vstd::slice::slice_to_vec(data),
        };
        let v = p.serialize();
        proof {
            assert(v@ =~= spec_data_frame(self.port, self.pid, self.src, self.dst, data@));
        }
        Ok(v)
    }

    /// The bytes of the circuit's disconnect frame.
    pub fn disconnect(&self) -> (r: Vec<u8>)
        requires
            self.wf(),
        ensures
            r@ == spec_packet_bytes(
                Packet::Disconnect {
                    port: self.port,
                    pid: self.pid,
                    src: self.src,
                    dst: self.dst,
                },
            ),
    {
        Packet::Disconnect { port: self.port, pid: self.pid, src: self.src, dst: self.dst }.serialize()
    }
}

/// AX.25 virtual circuit, created from the engine by `connect`.
///
/// The circuit holds no reference to the engine: each operation takes
/// the engine it was created from.  Whoever owns both must emit the
/// disconnect before discarding an undisconnected circuit; `disconnect`
/// is idempotent, so doing it on every path is safe.
#[derive(Debug)]
pub struct Connection {
    port: u8,
    pid: u8,
    src: Call,
    dst: Call,
    connect_string: String,
    disconnected: bool,
}

impl Connection {
    /// Whether the circuit already emitted its disconnect frame.
    pub closed spec fn spec_disconnected(&self) -> bool {
        self.disconnected
    }

    pub closed spec fn spec_port(&self) -> u8 {
        self.port
    }

    pub closed spec fn spec_pid(&self) -> u8 {
        self.pid
    }

    pub closed spec fn spec_src(&self) -> Call {
        self.src
    }

    pub closed spec fn spec_dst(&self) -> Call {
        self.dst
    }

    pub closed spec fn spec_connect_string(&self) -> Seq<char> {
        self.connect_string@
    }

    /// Both endpoint callsigns are valid and present.
    pub open spec fn wf(&self) -> bool {
        self.spec_src().wf() && !self.spec_src().spec_is_empty() && self.spec_dst().wf()
            && !self.spec_dst().spec_is_empty()
    }

    /// Return the connect string: the banner the host answered with.
    pub fn connect_string(&self) -> (r: &str)
        ensures
            r@ == self.spec_connect_string(),
    {
        self.connect_string.as_str()
    }

    /// Create a MakeWriter for the circuit, to produce frames without
    /// holding on to the engine.
    pub fn make_writer(&self) -> (r: MakeWriter)
        ensures
            r == (MakeWriter {
                port: self.spec_port(),
                pid: self.spec_pid(),
                src: self.spec_src(),
                dst: self.spec_dst(),
            }),
    {
        MakeWriter { port: self.port, pid: self.pid, src: self.src, dst: self.dst }
    }

    /// Return a copy of the handle that feeds the engine's outbound
    /// byte queue.
    pub fn sender(&self, agw: &AGW) -> Sender<Vec<u8>> {
        chan_sender_clone(&agw.tx)
    }

    /// Read user data from the circuit.
    ///
    /// The overflow queue is consulted first: the circuit's first queued
    /// frame answers the call (data is returned and removed, a queued
    /// disconnect stays and keeps answering).  Only then does the call
    /// block on the inbound channel, parking every frame that is not for
    /// this circuit; a remote disconnect is parked too, so every later
    /// read keeps failing with `RemoteDisconnected`.
    pub fn read(&self, agw: &mut AGW) -> (r: Result<Vec<u8>, AgwError>)
        ensures
            final(agw).sent() == old(agw).sent(),
            ({
                let q0 = old(agw).queue();
                let i = find_circuit_entry(q0, self.spec_src(), self.spec_dst());
                &&& (i >= 0 ==> ({
                    &&& final(agw).received() == old(agw).received()
                    &&& (q0[i].1 matches Reply::ConnectedData(d) ==> r matches Ok(v) && v@ == d@
                        && final(agw).queue() == q0.remove(i))
                    &&& (q0[i].1 is Disconnect ==> r == Err::<Vec<u8>, AgwError>(
                        AgwError::RemoteDisconnected,
                    ) && final(agw).queue() == q0)
                }))
                &&& (i == -1 ==> ({
                    let delta = delta_of(old(agw).received(), final(agw).received());
                    &&& old(agw).received().is_prefix_of(final(agw).received())
                    &&& (r matches Ok(v) ==> ({
                        &&& delta.len() >= 1
                        &&& entry_for_circuit(delta.last(), self.spec_src(), self.spec_dst())
                        &&& (delta.last().1 matches Reply::ConnectedData(d) && v@ == d@)
                        &&& forall|k: int|
                            0 <= k < delta.len() - 1 ==> !entry_for_circuit(
                                #[trigger] delta[k],
                                self.spec_src(),
                                self.spec_dst(),
                            )
                        &&& final(agw).queue() == q0 + delta.take(delta.len() - 1)
                    }))
                    &&& (r == Err::<Vec<u8>, AgwError>(AgwError::RemoteDisconnected) ==> ({
                        &&& delta.len() >= 1
                        &&& entry_for_circuit(delta.last(), self.spec_src(), self.spec_dst())
                        &&& delta.last().1 is Disconnect
                        &&& forall|k: int|
                            0 <= k < delta.len() - 1 ==> !entry_for_circuit(
                                #[trigger] delta[k],
                                self.spec_src(),
                                self.spec_dst(),
                            )
                        &&& final(agw).queue() == q0 + delta
                    }))
                    &&& (r == Err::<Vec<u8>, AgwError>(AgwError::QueueClosed) ==> ({
                        &&& forall|k: int|
                            0 <= k < delta.len() ==> !entry_for_circuit(
                                #[trigger] delta[k],
                                self.spec_src(),
                                self.spec_dst(),
                            )
                        &&& final(agw).queue() == q0 + delta
                    }))
                    &&& (r is Ok || r == Err::<Vec<u8>, AgwError>(AgwError::RemoteDisconnected)
                        || r == Err::<Vec<u8>, AgwError>(AgwError::QueueClosed))
                }))
            }),
    {
        let ghost q0 = agw.queue();
        let mut j: usize = 0;
        while j < agw.rxqueue.len()
            invariant
                0 <= j <= agw.queue().len(),
                q0 == old(agw).queue(),
                agw.queue() == q0,
                agw.sent() == old(agw).sent(),
                agw.received() == old(agw).received(),
                forall|k: int|
                    0 <= k < j ==> !entry_for_circuit(
                        #[trigger] q0[k],
                        self.spec_src(),
                        self.spec_dst(),
                    ),
            decreases agw.queue().len() - j,
        {
            let e = &agw.rxqueue[j];
            if entry_matches(&e.0, &e.1, &self.src, &self.dst) {
                proof {
                    lemma_find_from_scan(q0, self.spec_src(), self.spec_dst(), j as int);
                }
                if matches!(&e.1, Reply::ConnectedData(_)) {
                    let ent = agw.rxqueue.remove(j);
                    match ent.1 {
                        Reply::ConnectedData(d) => {
                            return Ok(d);
                        },
                        _ => {
                            proof {
                                assert(false);
                            }
                            return Err(AgwError::Transport);
                        },
                    }
                } else {
                    return Err(AgwError::RemoteDisconnected);
                }
            }
            j += 1;
        }
        proof {
            lemma_find_from_scan(q0, self.spec_src(), self.spec_dst(), q0.len() as int);
        }
        let mut fuel: u64 = WAIT_FUEL;
        while fuel > 0
            invariant
                find_circuit_entry(old(agw).queue(), self.spec_src(), self.spec_dst()) == -1,
                old(agw).received().is_prefix_of(agw.received()),
                agw.sent() == old(agw).sent(),
                forall|k: int|
                    0 <= k < delta_of(old(agw).received(), agw.received()).len()
                        ==> !entry_for_circuit(
                        #[trigger] delta_of(old(agw).received(), agw.received())[k],
                        self.spec_src(),
                        self.spec_dst(),
                    ),
                agw.queue() == old(agw).queue() + delta_of(old(agw).received(), agw.received()),
            decreases fuel,
        {
            fuel -= 1;
            let ghost pre = agw.received();
            match agw.recv() {
                None => {
                    return Err(AgwError::QueueClosed);
                },
                Some((h, rep)) => {
                    proof {
                        assert(delta_of(old(agw).received(), agw.received()) =~= delta_of(
                            old(agw).received(),
                            pre,
                        ).push((h, rep)));
                        assert(delta_of(old(agw).received(), agw.received()).take(
                            delta_of(old(agw).received(), agw.received()).len() - 1,
                        ) =~= delta_of(old(agw).received(), pre));
                    }
                    if entry_matches(&h, &rep, &self.src, &self.dst) {
                        match rep {
                            Reply::ConnectedData(d) => {
                                return Ok(d);
                            },
                            other => {
                                agw.rx_enqueue(h, other);
                                proof {
                                    assert(agw.queue() =~= old(agw).queue() + delta_of(
                                        old(agw).received(),
                                        agw.received(),
                                    ));
                                }
                                return Err(AgwError::RemoteDisconnected);
                            },
                        }
                    } else {
                        agw.rx_enqueue(h, rep);
                        proof {
                            assert(agw.queue() =~= old(agw).queue() + delta_of(
                                old(agw).received(),
                                agw.received(),
                            ));
                        }
                    }
                },
            }
        }
        Err(AgwError::QueueClosed)
    }

    /// Write data to the circuit.
    ///
    /// A zero-length write is a no-op.  A circuit that has been locally
    /// disconnected never emits another data frame.  There is no
    /// fragmentation at this layer: the whole buffer goes into one frame
    /// and the accepted count is its length.
    pub fn write(&self, agw: &mut AGW, data: &[u8]) -> (r: Result<usize, AgwError>)
        requires
            self.wf(),
            data@.len() <= 0xFFFF_FFFF,
        ensures
            final(agw).queue() == old(agw).queue(),
            final(agw).received() == old(agw).received(),
            self.spec_disconnected() ==> r == Err::<usize, AgwError>(AgwError::Transport) && final(agw).sent() == old(agw).sent(),
            !self.spec_disconnected() ==> ({
                &&& (data@.len() == 0 ==> r == Ok::<usize, AgwError>(0usize) && final(agw).sent()
                    == old(agw).sent())
                &&& (data@.len() > 0 ==> ({
                    &&& (r matches Ok(n) ==> n == data@.len() && final(agw).sent() == old(agw).sent().push(
                        spec_data_frame(
                            self.spec_port(),
                            self.spec_pid(),
                            self.spec_src(),
                            self.spec_dst(),
                            data@,
                        ),
                    ))
                    &&& (r is Err ==> r == Err::<usize, AgwError>(AgwError::Transport) && final(agw).sent() == old(agw).sent())
                }))
            }),
    {
        if self.disconnected {
            return Err(AgwError::Transport);
        }
        let len = data.len();
        if len == 0 {
            return Ok(0);
        }
        let p = Packet::Data {
            port: self.port,
            pid: self.pid,
            src: self.src,
            dst: self.dst,
            data: vstd::slice::slice_to_vec(data),
        };
        let b = p.serialize();
        proof {
            assert(b@ =~= spec_data_frame(
                self.spec_port(),
                self.spec_pid(),
                self.spec_src(),
                self.spec_dst(),
                data@,
            ));
        }
        match agw.send(b) {
            Ok(_) => Ok(len),
            Err(e) => Err(e),
        }
    }

    /// Disconnect the circuit.
    ///
    /// Idempotent: the first successful call emits exactly one `d`
    /// frame; every later call emits nothing and succeeds.
    pub fn disconnect(&mut self, agw: &mut AGW) -> (r: Result<(), AgwError>)
        requires
            old(self).wf(),
        ensures
            final(agw).queue() == old(agw).queue(),
            final(agw).received() == old(agw).received(),
            final(self).wf(),
            final(self).spec_port() == old(self).spec_port(),
            final(self).spec_pid() == old(self).spec_pid(),
            final(self).spec_src() == old(self).spec_src(),
            final(self).spec_dst() == old(self).spec_dst(),
            final(self).spec_connect_string() == old(self).spec_connect_string(),
            old(self).spec_disconnected() ==> r is Ok && final(self).spec_disconnected() && final(agw).sent() == old(agw).sent(),
            !old(self).spec_disconnected() ==> ({
                &&& (r is Ok ==> final(self).spec_disconnected() && final(agw).sent() == old(agw).sent().push(
                    spec_packet_bytes(
                        Packet::Disconnect {
                            port: old(self).spec_port(),
                            pid: old(self).spec_pid(),
                            src: old(self).spec_src(),
                            dst: old(self).spec_dst(),
                        },
                    ),
                ))
                &&& (r is Err ==> r == Err::<(), AgwError>(AgwError::Transport) && !final(self).spec_disconnected() && final(agw).sent() == old(agw).sent())
            }),
    {
        if self.disconnected {
            return Ok(());
        }
        let b = Packet::Disconnect {
            port: self.port,
            pid: self.pid,
            src: self.src,
            dst: self.dst,
        }.serialize();
        match agw.send(b) {
            Ok(_) => {
                self.disconnected = true;
                Ok(())
            },
            Err(e) => Err(e),
        }
    }
}

/// AGW connection: the engine side of one client session.
///
/// It is created on a pair of channels: `tx` carries ready-to-emit frame
/// bytes to the socket writer, `rx` carries parsed inbound frames from
/// the socket reader.
pub struct AGW {
    tx: Sender<Vec<u8>>,
    rx: Receiver<(Header, Reply)>,
    rxqueue: Vec<(Header, Reply)>,
    connect_timeout_ms: u64,
    sent: Ghost<Seq<Seq<u8>>>,
    received: Ghost<Seq<(Header, Reply)>>,
}

/// The frames received since a call started.
pub open spec fn delta_of(pre: Seq<(Header, Reply)>, post: Seq<(Header, Reply)>) -> Seq<
    (Header, Reply),
> {
    post.skip(pre.len() as int)
}

impl AGW {
    /// The overflow queue: inbound frames no caller has consumed yet.
    pub closed spec fn queue(&self) -> Seq<(Header, Reply)> {
        self.rxqueue@
    }

    /// Every frame handed to the socket writer, in order.
    pub closed spec fn sent(&self) -> Seq<Seq<u8>> {
        self.sent@
    }

    /// Every frame taken off the inbound channel, in order.
    pub closed spec fn received(&self) -> Seq<(Header, Reply)> {
        self.received@
    }

    /// The connect deadline currently in force, in milliseconds.
    pub closed spec fn spec_connect_timeout(&self) -> u64 {
        self.connect_timeout_ms
    }

    /// Create the engine over its two channels.  The socket itself, and
    /// the threads that pump it, live outside the engine.
    pub fn new(tx: Sender<Vec<u8>>, rx: Receiver<(Header, Reply)>) -> (r: AGW)
        ensures
            r.queue() == Seq::<(Header, Reply)>::empty(),
            r.sent() == Seq::<Seq<u8>>::empty(),
            r.received() == Seq::<(Header, Reply)>::empty(),
            r.spec_connect_timeout() == CONNECT_TIMEOUT_MS,
    {
        AGW {
            tx,
            rx,
            rxqueue: Vec::new(),
            connect_timeout_ms: CONNECT_TIMEOUT_MS,
            sent: Ghost(Seq::empty()),
            received: Ghost(Seq::empty()),
        }
    }

    /// Change the connect deadline.
    pub fn set_connect_timeout(&mut self, millis: u64)
        ensures
            final(self).queue() == old(self).queue(),
            final(self).sent() == old(self).sent(),
            final(self).received() == old(self).received(),
            final(self).spec_connect_timeout() == millis,
    {
        self.connect_timeout_ms = millis;
    }

    /// Number of frames parked on the overflow queue.  The queue is
    /// unbounded; above `QUEUE_WARN_LIMIT` the session deserves a
    /// diagnostic, because some circuit is not being drained.
    pub fn overflow_len(&self) -> (r: usize)
        ensures
            r == self.queue().len(),
    {
        self.rxqueue.len()
    }

    /// Shut the session down: both channel ends are dropped, which
    /// releases the socket threads; any caller still blocked on them
    /// observes a delivery error.
    pub fn close(self) {
    }

    /// Hand one ready-to-emit frame to the socket writer.
    fn send(&mut self, msg: Vec<u8>) -> (r: Result<(), AgwError>)
        ensures
            final(self).queue() == old(self).queue(),
            final(self).received() == old(self).received(),
            r is Ok ==> final(self).sent() == old(self).sent().push(msg@),
            r is Err ==> final(self).sent() == old(self).sent() && r == Err::<(), AgwError>(
                AgwError::Transport,
            ),
    {
        let ghost m = msg@;
        if chan_send(&self.tx, msg) {
            self.sent = Ghost(self.sent@.push(m));
            Ok(())
        } else {
            Err(AgwError::Transport)
        }
    }

    /// Take the next inbound frame, recording it in the history.
    fn recv(&mut self) -> (r: Option<(Header, Reply)>)
        ensures
            final(self).queue() == old(self).queue(),
            final(self).sent() == old(self).sent(),
            r matches Some(f) ==> final(self).received() == old(self).received().push(f),
            r is None ==> final(self).received() == old(self).received(),
    {
        match chan_recv(&self.rx) {
            Some(f) => {
                self.received = Ghost(self.received@.push(f));
                Some(f)
            },
            None => None,
        }
    }

    /// Like `recv`, but gives up after `millis` milliseconds.
    fn recv_deadline(&mut self, millis: u64) -> (r: RecvOutcome)
        ensures
            final(self).queue() == old(self).queue(),
            final(self).sent() == old(self).sent(),
            r matches RecvOutcome::Frame(h, rep) ==> final(self).received() == old(self).received().push(
                (h, rep),
            ),
            r is TimedOut || r is Closed ==> final(self).received() == old(self).received(),
    {
        match chan_recv_deadline(&self.rx, millis) {
            RecvOutcome::Frame(h, rep) => {
                self.received = Ghost(self.received@.push((h, rep)));
                RecvOutcome::Frame(h, rep)
            },
            RecvOutcome::TimedOut => RecvOutcome::TimedOut,
            RecvOutcome::Closed => RecvOutcome::Closed,
        }
    }

    /// Park a frame nobody has asked for yet on the overflow queue.
    fn rx_enqueue(&mut self, h: Header, rep: Reply)
        ensures
            final(self).queue() == old(self).queue().push((h, rep)),
            final(self).sent() == old(self).sent(),
            final(self).received() == old(self).received(),
    {
        self.rxqueue.push((h, rep));
    }

    /// Get the version of the AGW endpoint.
    ///
    /// Sends the version query, then consumes the first version reply
    /// off the inbound channel; every frame received before it is kept
    /// on the overflow queue, none is lost.
    pub fn version(&mut self) -> (r: Result<(u16, u16), AgwError>)
        ensures
            old(self).received().is_prefix_of(final(self).received()),
            r matches Ok(v) ==> ({
                let delta = delta_of(old(self).received(), final(self).received());
                &&& final(self).sent() == old(self).sent().push(
                    spec_packet_bytes(Packet::VersionQuery),
                )
                &&& delta.len() >= 1
                &&& delta.last().1 == Reply::Version(v.0, v.1)
                &&& forall|i: int|
                    0 <= i < delta.len() - 1 ==> !((#[trigger] delta[i]).1 is Version)
                &&& final(self).queue() == old(self).queue() + delta.take(delta.len() - 1)
            }),
            r matches Err(e) ==> ({
                let delta = delta_of(old(self).received(), final(self).received());
                ||| ({
                    &&& e == AgwError::Transport
                    &&& final(self).sent() == old(self).sent()
                    &&& final(self).received() == old(self).received()
                    &&& final(self).queue() == old(self).queue()
                })
                ||| ({
                    &&& e == AgwError::QueueClosed
                    &&& final(self).sent() == old(self).sent().push(
                        spec_packet_bytes(Packet::VersionQuery),
                    )
                    &&& forall|i: int|
                        0 <= i < delta.len() ==> !((#[trigger] delta[i]).1 is Version)
                    &&& final(self).queue() == old(self).queue() + delta
                })
            }),
    {
        let q = Packet::VersionQuery.serialize();
        match self.send(q) {
            Ok(_) => (),
            Err(e) => {
                return Err(e);
            },
        }
        let mut fuel: u64 = WAIT_FUEL;
        while fuel > 0
            invariant
                old(self).received().is_prefix_of(self.received()),
                self.sent() == old(self).sent().push(spec_packet_bytes(Packet::VersionQuery)),
                forall|i: int|
                    0 <= i < delta_of(old(self).received(), self.received()).len() ==> !((
                    #[trigger] delta_of(old(self).received(), self.received())[i]).1 is Version),
                self.queue() == old(self).queue() + delta_of(
                    old(self).received(),
                    self.received(),
                ),
            decreases fuel,
        {
            fuel -= 1;
            let ghost pre = self.received();
            match self.recv() {
                None => {
                    return Err(AgwError::QueueClosed);
                },
                Some((h, rep)) => {
                    proof {
                        assert(delta_of(old(self).received(), self.received()) =~= delta_of(
                            old(self).received(),
                            pre,
                        ).push((h, rep)));
                        assert(delta_of(old(self).received(), self.received()).take(
                            delta_of(old(self).received(), self.received()).len() - 1,
                        ) =~= delta_of(old(self).received(), pre));
                    }
                    match rep {
                        Reply::Version(maj, min) => {
                            return Ok((maj, min));
                        },
                        other => {
                            self.rx_enqueue(h, other);
                            proof {
                                assert(self.queue() =~= old(self).queue() + delta_of(
                                    old(self).received(),
                                    self.received(),
                                ));
                            }
                        },
                    }
                },
            }
        }
        Err(AgwError::QueueClosed)
    }

    /// Get the free-form port information string of the AGW endpoint.
    ///
    /// Same discipline as `version`: the first port-info reply answers
    /// the call, everything else received meanwhile is queued.
    pub fn port_info(&mut self, port: u8) -> (r: Result<String, AgwError>)
        ensures
            old(self).received().is_prefix_of(final(self).received()),
            r matches Ok(v) ==> ({
                let delta = delta_of(old(self).received(), final(self).received());
                &&& final(self).sent() == old(self).sent().push(
                    spec_packet_bytes(Packet::PortInfo(port)),
                )
                &&& delta.len() >= 1
                &&& delta.last().1 == Reply::PortInfo(v)
                &&& forall|i: int|
                    0 <= i < delta.len() - 1 ==> !((#[trigger] delta[i]).1 is PortInfo)
                &&& final(self).queue() == old(self).queue() + delta.take(delta.len() - 1)
            }),
            r matches Err(e) ==> ({
                let delta = delta_of(old(self).received(), final(self).received());
                ||| ({
                    &&& e == AgwError::Transport
                    &&& final(self).sent() == old(self).sent()
                    &&& final(self).received() == old(self).received()
                    &&& final(self).queue() == old(self).queue()
                })
                ||| ({
                    &&& e == AgwError::QueueClosed
                    &&& final(self).sent() == old(self).sent().push(
                        spec_packet_bytes(Packet::PortInfo(port)),
                    )
                    &&& forall|i: int|
                        0 <= i < delta.len() ==> !((#[trigger] delta[i]).1 is PortInfo)
                    &&& final(self).queue() == old(self).queue() + delta
                })
            }),
    {
        let q = Packet::PortInfo(port).serialize();
        match self.send(q) {
            Ok(_) => (),
            Err(e) => {
                return Err(e);
            },
        }
        let mut fuel: u64 = WAIT_FUEL;
        while fuel > 0
            invariant
                old(self).received().is_prefix_of(self.received()),
                self.sent() == old(self).sent().push(spec_packet_bytes(Packet::PortInfo(port))),
                forall|i: int|
                    0 <= i < delta_of(old(self).received(), self.received()).len() ==> !((
                    #[trigger] delta_of(old(self).received(), self.received())[i]).1 is PortInfo),
                self.queue() == old(self).queue() + delta_of(
                    old(self).received(),
                    self.received(),
                ),
            decreases fuel,
        {
            fuel -= 1;
            let ghost pre = self.received();
            match self.recv() {
                None => {
                    return Err(AgwError::QueueClosed);
                },
                Some((h, rep)) => {
                    proof {
                        assert(delta_of(old(self).received(), self.received()) =~= delta_of(
                            old(self).received(),
                            pre,
                        ).push((h, rep)));
                        assert(delta_of(old(self).received(), self.received()).take(
                            delta_of(old(self).received(), self.received()).len() - 1,
                        ) =~= delta_of(old(self).received(), pre));
                    }
                    match rep {
                        Reply::PortInfo(s) => {
                            return Ok(s);
                        },
                        other => {
                            self.rx_enqueue(h, other);
                            proof {
                                assert(self.queue() =~= old(self).queue() + delta_of(
                                    old(self).received(),
                                    self.received(),
                                ));
                            }
                        },
                    }
                },
            }
        }
        Err(AgwError::QueueClosed)
    }

    /// Get the capabilities of one AGW "port" (radio channel).
    pub fn port_cap(&mut self, port: u8) -> (r: Result<crate::packet::PortCap, AgwError>)
        ensures
            old(self).received().is_prefix_of(final(self).received()),
            r matches Ok(v) ==> ({
                let delta = delta_of(old(self).received(), final(self).received());
                &&& final(self).sent() == old(self).sent().push(
                    spec_packet_bytes(Packet::PortCap(port)),
                )
                &&& delta.len() >= 1
                &&& delta.last().1 == Reply::PortCaps(v)
                &&& forall|i: int|
                    0 <= i < delta.len() - 1 ==> !((#[trigger] delta[i]).1 is PortCaps)
                &&& final(self).queue() == old(self).queue() + delta.take(delta.len() - 1)
            }),
            r matches Err(e) ==> ({
                let delta = delta_of(old(self).received(), final(self).received());
                ||| ({
                    &&& e == AgwError::Transport
                    &&& final(self).sent() == old(self).sent()
                    &&& final(self).received() == old(self).received()
                    &&& final(self).queue() == old(self).queue()
                })
                ||| ({
                    &&& e == AgwError::QueueClosed
                    &&& final(self).sent() == old(self).sent().push(
                        spec_packet_bytes(Packet::PortCap(port)),
                    )
                    &&& forall|i: int|
                        0 <= i < delta.len() ==> !((#[trigger] delta[i]).1 is PortCaps)
                    &&& final(self).queue() == old(self).queue() + delta
                })
            }),
    {
        let q = Packet::PortCap(port).serialize();
        match self.send(q) {
            Ok(_) => (),
            Err(e) => {
                return Err(e);
            },
        }
        let mut fuel: u64 = WAIT_FUEL;
        while fuel > 0
            invariant
                old(self).received().is_prefix_of(self.received()),
                self.sent() == old(self).sent().push(spec_packet_bytes(Packet::PortCap(port))),
                forall|i: int|
                    0 <= i < delta_of(old(self).received(), self.received()).len() ==> !((
                    #[trigger] delta_of(old(self).received(), self.received())[i]).1 is PortCaps),
                self.queue() == old(self).queue() + delta_of(
                    old(self).received(),
                    self.received(),
                ),
            decreases fuel,
        {
            fuel -= 1;
            let ghost pre = self.received();
            match self.recv() {
                None => {
                    return Err(AgwError::QueueClosed);
                },
                Some((h, rep)) => {
                    proof {
                        assert(delta_of(old(self).received(), self.received()) =~= delta_of(
                            old(self).received(),
                            pre,
                        ).push((h, rep)));
                        assert(delta_of(old(self).received(), self.received()).take(
                            delta_of(old(self).received(), self.received()).len() - 1,
                        ) =~= delta_of(old(self).received(), pre));
                    }
                    match rep {
                        Reply::PortCaps(c) => {
                            return Ok(c);
                        },
                        other => {
                            self.rx_enqueue(h, other);
                            proof {
                                assert(self.queue() =~= old(self).queue() + delta_of(
                                    old(self).received(),
                                    self.received(),
                                ));
                            }
                        },
                    }
                },
            }
        }
        Err(AgwError::QueueClosed)
    }

    /// Send a connectionless UI frame.  Fire-and-forget: nothing is
    /// awaited, the frame is only handed to the writer.
    pub fn unproto(&mut self, port: u8, pid: u8, src: &Call, dst: &Call, data: &[u8]) -> (r:
        Result<(), AgwError>)
        requires
            src.wf() && !src.spec_is_empty(),
            dst.wf() && !dst.spec_is_empty(),
            data@.len() <= 0xFFFF_FFFF,
        ensures
            final(self).queue() == old(self).queue(),
            final(self).received() == old(self).received(),
            r is Ok ==> final(self).sent() == old(self).sent().push(
                spec_header_bytes(
                    Header {
                        port,
                        data_kind: crate::packet::KIND_UNPROTO,
                        pid,
                        src: Some(*src),
                        dst: Some(*dst),
                        data_len: data@.len() as u32,
                    },
                ) + data@,
            ),
            r is Err ==> final(self).sent() == old(self).sent() && r == Err::<(), AgwError>(
                AgwError::Transport,
            ),
    {
        let p = Packet::Unproto {
            port,
            pid,
            src: *src,
            dst: *dst,
            data: vstd::slice::slice_to_vec(data),
        };
        let b = p.serialize();
        proof {
            assert(spec_packet_bytes(p) =~= spec_header_bytes(
                Header {
                    port,
                    data_kind: crate::packet::KIND_UNPROTO,
                    pid,
                    src: Some(*src),
                    dst: Some(*dst),
                    data_len: data@.len() as u32,
                },
            ) + data@);
        }
        self.send(b)
    }

    /// Register a local callsign with the host.
    ///
    /// The host's ack is fire-and-forget here: it is observed by a later
    /// call and parked on the overflow queue, never awaited.
    pub fn register_callsign(&mut self, port: u8, pid: u8, src: &Call) -> (r: Result<
        (),
        AgwError,
    >)
        requires
            src.wf() && !src.spec_is_empty(),
        ensures
            final(self).queue() == old(self).queue(),
            final(self).received() == old(self).received(),
            r is Ok ==> final(self).sent() == old(self).sent().push(
                spec_packet_bytes(Packet::RegisterCallsign(port, pid, *src)),
            ),
            r is Err ==> final(self).sent() == old(self).sent() && r == Err::<(), AgwError>(
                AgwError::Transport,
            ),
    {
        let b = Packet::RegisterCallsign(port, pid, *src).serialize();
        self.send(b)
    }

    /// Create a new virtual circuit.
    ///
    /// With more than seven digipeater hops the call fails at once and
    /// emits nothing.  Otherwise one connect frame is emitted and the
    /// call waits, up to a deadline, for the host's `C` reply addressed
    /// back to this circuit; a reply with an unrecognised banner is a
    /// protocol error.  Frames for anyone else are kept on the overflow
    /// queue.
    pub fn connect(&mut self, port: u8, pid: u8, src: &Call, dst: &Call, via: &[Call]) -> (r:
        Result<Connection, AgwError>)
        requires
            src.wf() && !src.spec_is_empty(),
            dst.wf() && !dst.spec_is_empty(),
            forall|i: int| 0 <= i < via@.len() ==> (#[trigger] via@[i]).wf(),
        ensures
            old(self).received().is_prefix_of(final(self).received()),
            (via@.len() > 7) ==> ({
                &&& r == Err::<Connection, AgwError>(AgwError::TooManyHops)
                &&& final(self).sent() == old(self).sent()
                &&& final(self).received() == old(self).received()
                &&& final(self).queue() == old(self).queue()
            }),
            r matches Ok(c) ==> ({
                let delta = delta_of(old(self).received(), final(self).received());
                &&& via@.len() <= 7
                &&& c.spec_port() == port && c.spec_pid() == pid
                &&& c.spec_src() == *src && c.spec_dst() == *dst
                &&& c.wf() && !c.spec_disconnected()
                &&& final(self).sent() == old(self).sent().push(
                    spec_connect_frame(port, pid, *src, *dst, via@),
                )
                &&& delta.len() >= 1
                &&& is_connect_reply_for(delta.last(), *src, *dst)
                &&& (delta.last().1 matches Reply::Connected(s) && s@ == c.spec_connect_string())
                &&& is_with_banner(encode_utf8(c.spec_connect_string()))
                &&& forall|i: int|
                    0 <= i < delta.len() - 1 ==> !is_connect_reply_for(
                        #[trigger] delta[i],
                        *src,
                        *dst,
                    )
                &&& final(self).queue() == old(self).queue() + delta.take(delta.len() - 1)
            }),
            r matches Err(e) ==> (via@.len() <= 7) ==> ({
                let delta = delta_of(old(self).received(), final(self).received());
                ||| ({
                    &&& e == AgwError::Transport
                    &&& final(self).sent() == old(self).sent()
                    &&& final(self).received() == old(self).received()
                    &&& final(self).queue() == old(self).queue()
                })
                ||| ({
                    &&& e == AgwError::UnexpectedBanner
                    &&& final(self).sent() == old(self).sent().push(
                        spec_connect_frame(port, pid, *src, *dst, via@),
                    )
                    &&& delta.len() >= 1
                    &&& is_connect_reply_for(delta.last(), *src, *dst)
                    &&& (delta.last().1 matches Reply::Connected(s) && !is_with_banner(
                        encode_utf8(s@),
                    ))
                    &&& forall|i: int|
                        0 <= i < delta.len() - 1 ==> !is_connect_reply_for(
                            #[trigger] delta[i],
                            *src,
                            *dst,
                        )
                    &&& final(self).queue() == old(self).queue() + delta.take(delta.len() - 1)
                })
                ||| ({
                    &&& (e == AgwError::ConnectTimeout || e == AgwError::QueueClosed)
                    &&& final(self).sent() == old(self).sent().push(
                        spec_connect_frame(port, pid, *src, *dst, via@),
                    )
                    &&& forall|i: int|
                        0 <= i < delta.len() ==> !is_connect_reply_for(
                            #[trigger] delta[i],
                            *src,
                            *dst,
                        )
                    &&& final(self).queue() == old(self).queue() + delta
                })
            }),
    {
        if via.len() > 7 {
            return Err(AgwError::TooManyHops);
        }
        let frame: Vec<u8>;
        if via.len() == 0 {
            let p = Packet::Connect { port, pid, src: *src, dst: *dst };
            frame = p.serialize();
            proof {
                assert(frame@ =~= spec_connect_frame(port, pid, *src, *dst, via@));
            }
        } else {
            let p = Packet::ConnectVia {
                port,
                pid,
                src: *src,
                dst: *dst,
                via: vstd::slice::slice_to_vec(via),
            };
            frame = p.serialize();
            proof {
                lemma_via_calls_len(via@);
                assert(frame@ =~= spec_connect_frame(port, pid, *src, *dst, via@));
            }
        }
        match self.send(frame) {
            Ok(_) => (),
            Err(e) => {
                return Err(e);
            },
        }
        let deadline = self.connect_timeout_ms;
        let mut fuel: u64 = WAIT_FUEL;
        while fuel > 0
            invariant
                (via@.len() <= 7),
                src.wf() && !src.spec_is_empty(),
                dst.wf() && !dst.spec_is_empty(),
                old(self).received().is_prefix_of(self.received()),
                self.sent() == old(self).sent().push(
                    spec_connect_frame(port, pid, *src, *dst, via@),
                ),
                forall|i: int|
                    0 <= i < delta_of(old(self).received(), self.received()).len()
                        ==> !is_connect_reply_for(
                        #[trigger] delta_of(old(self).received(), self.received())[i],
                        *src,
                        *dst,
                    ),
                self.queue() == old(self).queue() + delta_of(
                    old(self).received(),
                    self.received(),
                ),
            decreases fuel,
        {
            fuel -= 1;
            let ghost pre = self.received();
            match self.recv_deadline(deadline) {
                RecvOutcome::TimedOut => {
                    return Err(AgwError::ConnectTimeout);
                },
                RecvOutcome::Closed => {
                    return Err(AgwError::QueueClosed);
                },
                RecvOutcome::Frame(h, rep) => {
                    proof {
                        assert(delta_of(old(self).received(), self.received()) =~= delta_of(
                            old(self).received(),
                            pre,
                        ).push((h, rep)));
                        assert(delta_of(old(self).received(), self.received()).take(
                            delta_of(old(self).received(), self.received()).len() - 1,
                        ) =~= delta_of(old(self).received(), pre));
                    }
                    if opt_call_is(&h.src, dst) && opt_call_is(&h.dst, src) {
                        match rep {
                            Reply::Connected(s) => {
                                let wc = pre_with_caps();
                                let ws = pre_with_station();
                                let sb = s.as_str().as_bytes();
                                if starts_with(sb, &wc) || starts_with(sb, &ws) {
                                    return Ok(
                                        Connection {
                                            port,
                                            pid,
                                            src: *src,
                                            dst: *dst,
                                            connect_string: s,
                                            disconnected: false,
                                        },
                                    );
                                } else {
                                    return Err(AgwError::UnexpectedBanner);
                                }
                            },
                            other => {
                                self.rx_enqueue(h, other);
                                proof {
                                    assert(self.queue() =~= old(self).queue() + delta_of(
                                        old(self).received(),
                                        self.received(),
                                    ));
                                }
                            },
                        }
                    } else {
                        self.rx_enqueue(h, rep);
                        proof {
                            assert(self.queue() =~= old(self).queue() + delta_of(
                                old(self).received(),
                                self.received(),
                            ));
                        }
                    }
                },
            }
        }
        Err(AgwError::QueueClosed)
    }
}

} // verus!
