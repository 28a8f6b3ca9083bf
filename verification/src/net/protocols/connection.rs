//! The state of a TCP connection and the decisions taken on it: what an
//! incoming segment does to the connection, when an ACK is owed, how much
//! of a buffer may be sent and how it is cut into segments, and the steps of
//! opening a connection and of sending a buffer over it.
//!
//! The caller performs the sends, the receives and the reads of the time,
//! and hands what happened to the steps, which say what to do next.

use vstd::prelude::*;
use crate::net::{Port, NetAddress};
use crate::net::protocols::tcp::{Parsed, WINDOW_SIZE, MAX_MSS, TCP_SYN, TCP_RST, TCP_ACK};

verus! {

/// TCP push flag (the last segment of a send)
pub const TCP_PSH: u8 = 1 << 3;

/// The possible states of a TCP connection
#[derive(Debug, Clone, Copy, PartialEq, Eq, Structural)]
pub enum TcpState {
    /// The connection is closed
    Closed,
    /// An initial SYN has been sent and we are awaiting a SYN-ACK
    Syn,
    /// We have sent an ACK to a SYN-ACK, marking the connection as
    /// established.
    ///
    /// It's possible we might get another SYN-ACK in this state in the case
    /// that the ACK we have sent was dropped
    Established,
}

/// `a - b` on 32-bit sequence numbers
pub open spec fn seq_sub(a: u32, b: u32) -> u32 {
    vstd::wrapping::u32_specs::wrapping_sub(a, b)
}

/// `a + b` on 32-bit sequence numbers
pub open spec fn seq_add(a: u32, b: u32) -> u32 {
    vstd::wrapping::u32_specs::wrapping_add(a, b)
}

/// The fields of a segment that the connection acts upon
#[derive(Debug, Clone, Copy, PartialEq, Eq, Structural)]
pub struct AckSegment {
    /// Flags of the segment
    pub flags: u8,
    /// Sequence identifier
    pub seq: u32,
    /// ACK number
    pub ack: u32,
    /// Size of the receive window advertised
    pub window: u16,
}

/// The actual internal state of a TCP connection
#[derive(Debug)]
pub struct Internal {
    /// Address of the remote server
    pub server: NetAddress,
    /// State of the connection
    pub state: TcpState,
    /// The port we are bound on
    pub port: Port,
    /// Our next sequence identifier
    pub seq: u32,
    /// The next sequence identifier we expect from the remote end
    pub ack: u32,
    /// The last sequence identifier the remote end acknowledged
    pub remote_ack: u32,
    /// The last receive window the remote end advertised
    pub remote_window: u16,
    /// TCP receive window: the data received and not consumed yet
    pub window: Vec<u8>,
}

/// The state of a connection as a value
pub struct InternalView {
    pub state: TcpState,
    pub seq: u32,
    pub ack: u32,
    pub remote_ack: u32,
    pub remote_window: u16,
    pub window: Seq<u8>,
}

impl View for Internal {
    type V = InternalView;

    open spec fn view(&self) -> InternalView {
        InternalView {
            state: self.state,
            seq: self.seq,
            ack: self.ack,
            remote_ack: self.remote_ack,
            remote_window: self.remote_window,
            window: self.window@,
        }
    }
}

/// The room left in a receive window holding `len` bytes
pub open spec fn window_room(len: nat) -> u16 {
    (WINDOW_SIZE - len) as u16
}

/// Whether the segment `(flags, seq, ack, payload)` is acted upon by the
/// connection `c`, and if so the connection afterwards and the ACK it owes,
/// if any: `None` when the segment is ignored (the connection is closed, or
/// the segment is not an ACK, acknowledges bytes never sent, is out of order
/// or overflows the window), a reset closing the connection being ignored
/// too
pub open spec fn spec_handle(
    c: InternalView,
    flags: u8,
    seq: u32,
    ack: u32,
    window: u16,
    payload: Seq<u8>,
) -> (InternalView, Option<Option<AckSegment>>) {
    if c.state == TcpState::Closed {
        (c, None)
    } else if flags & TCP_RST != 0 {
        (InternalView { state: TcpState::Closed, ..c }, None)
    } else if flags & TCP_ACK == 0 {
        (c, None)
    } else if seq_sub(ack, c.remote_ack) > seq_sub(c.seq, c.remote_ack) {
        (c, None)
    } else if c.state == TcpState::Established && seq != c.ack {
        (c, None)
    } else if c.state == TcpState::Established && payload.len() > 0 && payload.len()
        > WINDOW_SIZE - c.window.len() {
        (c, None)
    } else {
        // Data copied into the window
        let data = c.state == TcpState::Established && payload.len() > 0;
        let window1 = if data { c.window + payload } else { c.window };
        let ack1 = if data { seq_add(c.ack, payload.len() as u32) } else { c.ack };
        // A SYN-ACK establishes the connection
        let syn = flags & TCP_SYN != 0;
        let state2 = if syn { TcpState::Established } else { c.state };
        let ack2 = if syn { seq_add(seq, 1) } else { ack1 };
        let c2 = InternalView {
            state: state2,
            seq: c.seq,
            ack: ack2,
            remote_ack: ack,
            remote_window: window,
            window: window1,
        };
        let reply = if data || syn {
            Some(
                AckSegment {
                    flags: TCP_ACK,
                    seq: c.seq,
                    ack: ack2,
                    window: window_room(window1.len()),
                },
            )
        } else {
            None
        };
        (c2, Some(reply))
    }
}

impl Internal {
    /// The receive window never holds more than its size
    pub open spec fn wf(&self) -> bool {
        self.window@.len() <= WINDOW_SIZE
    }

    /// A closed connection to `server` bound on `port`, starting at the
    /// sequence identifier `seq`
    pub fn new(server: NetAddress, port: Port, seq: u32) -> (c: Internal)
        ensures
            c.wf(),
            c.server == server,
            c.port == port,
            c.state == TcpState::Closed,
            c.seq == seq,
            c.ack == 0,
            c.remote_ack == 0,
            c.remote_window == 0,
            c.window@.len() == 0,
    {
        Internal {
            server,
            state: TcpState::Closed,
            port,
            seq,
            ack: 0,
            remote_ack: 0,
            remote_window: 0,
            window: Vec::new(),
        }
    }

    /// The room left in the receive window
    pub fn window_room(&self) -> (r: u16)
        requires
            self.wf(),
        ensures
            r == window_room(self.window@.len()),
    {
        (WINDOW_SIZE - self.window.len()) as u16
    }

    /// The options of the initial SYN: the maximum segment size we accept
    pub fn syn_options() -> (opts: [u8; 4])
        ensures
            opts@ == seq![2u8, 4u8, (MAX_MSS / 0x100) as u8, (MAX_MSS % 0x100) as u8],
    {
        let opts = [2u8, 4u8, (MAX_MSS / 0x100) as u8, (MAX_MSS % 0x100) as u8];
        assert(opts@ =~= seq![2u8, 4u8, (MAX_MSS / 0x100) as u8, (MAX_MSS % 0x100) as u8]);
        opts
    }

    /// The SYN opening the connection: sent from the current sequence
    /// identifier, acknowledging nothing
    pub fn syn_segment(&self) -> (s: AckSegment)
        requires
            self.wf(),
        ensures
            s == (AckSegment {
                flags: TCP_SYN,
                seq: self.seq,
                ack: 0,
                window: window_room(self.window@.len()),
            }),
    {
        AckSegment { flags: TCP_SYN, seq: self.seq, ack: 0, window: self.window_room() }
    }

    /// Record that the SYN was sent: it takes one sequence identifier and
    /// the connection awaits a SYN-ACK
    pub fn syn_sent(&mut self)
        ensures
            final(self).seq == seq_add(old(self).seq, 1),
            final(self).state == TcpState::Syn,
            final(self).ack == old(self).ack,
            final(self).remote_ack == old(self).remote_ack,
            final(self).remote_window == old(self).remote_window,
            final(self).window@ == old(self).window@,
            final(self).server == old(self).server,
            final(self).port == old(self).port,
    {
        self.seq = self.seq.wrapping_add(1);
        self.state = TcpState::Syn;
    }

    /// Handle a TCP packet destined to this connection
    ///
    /// Returns `None` when the packet is ignored, else `Some` of the ACK
    /// that has to be sent back, if one is owed
    pub fn handle_packet(&mut self, tcp: &Parsed) -> (r: Option<Option<AckSegment>>)
        requires
            old(self).wf(),
            old(self).port == tcp.dst_port,
        ensures
            final(self).wf(),
            (final(self)@, r) == spec_handle(
                old(self)@,
                tcp.flags,
                tcp.seq,
                tcp.ack,
                tcp.window,
                tcp.payload@,
            ),
            r is Some ==> final(self).remote_ack == tcp.ack && final(self).remote_window
                == tcp.window,
            final(self).server == old(self).server,
            final(self).port == old(self).port,
    {
        // Don't handle packets if the connection is closed
        if self.state == TcpState::Closed {
            return None;
        }
        // If we got a reset, close the connection
        if tcp.flags & TCP_RST != 0 {
            self.state = TcpState::Closed;
            return None;
        }
        // At this point we only expect ACKs
        if tcp.flags & TCP_ACK == 0 {
            return None;
        }
        // Get the number of unacknowledged bytes
        let unacked = self.seq.wrapping_sub(self.remote_ack);

        // Make sure the remote end is not acknowledging bytes we never sent
        if tcp.ack.wrapping_sub(self.remote_ack) > unacked {
            return None;
        }
        // Out of order packets are dropped
        if self.state == TcpState::Established && tcp.seq != self.ack {
            return None;
        }

        // Track whether we need to send an ACK
        let mut should_ack = false;

        // Check if the packet contains any data and if it does, copy it to
        // our window
        if self.state == TcpState::Established && tcp.payload.len() > 0 {
            // Drop packets that exceed our window; the remote side should
            // never send more than that.
            if tcp.payload.len() > WINDOW_SIZE - self.window.len() {
                return None;
            }
            // Save the data into our window
            let mut i: usize = 0;
            let ghost w0 = self.window@;
            while i < tcp.payload.len()
                invariant
                    i <= tcp.payload@.len(),
                    self.window@ == w0 + tcp.payload@.take(i as int),
                    w0.len() + tcp.payload@.len() <= WINDOW_SIZE,
                    self.state == old(self).state,
                    self.seq == old(self).seq,
                    self.ack == old(self).ack,
                    self.remote_ack == old(self).remote_ack,
                    self.remote_window == old(self).remote_window,
                    self.server == old(self).server,
                    self.port == old(self).port,
                decreases tcp.payload@.len() - i,
            {
                assert(tcp.payload@.take(i + 1) =~= tcp.payload@.take(i as int).push(
                    tcp.payload@[i as int],
                ));
                self.window.push(tcp.payload[i]);
                i = i + 1;
            }
            assert(tcp.payload@.take(i as int) =~= tcp.payload@);

            // Update the ack to indicate we read the bytes
            self.ack = self.ack.wrapping_add(tcp.payload.len() as u32);
            should_ack = true;
        }

        // If we're waiting for a SYN-ACK, check if this is it
        if tcp.flags & TCP_SYN != 0 {
            // If we just acked a SYN, update the state
            self.state = TcpState::Established;
            self.ack = tcp.seq.wrapping_add(1);
            should_ack = true;
        }

        // The ACK to send, if needed
        let reply = if should_ack {
            Some(AckSegment { flags: TCP_ACK, seq: self.seq, ack: self.ack, window: self.window_room() })
        } else {
            None
        };

        // Update the server state to the most recent packet information
        self.remote_ack = tcp.ack;
        self.remote_window = tcp.window;
        Some(reply)
    }

    /// Number of bytes sent and not acknowledged yet
    pub fn unacked(&self) -> (n: u32)
        ensures
            n == seq_sub(self.seq, self.remote_ack),
    {
        self.seq.wrapping_sub(self.remote_ack)
    }

    /// After an ACK timeout, rewind the sending to the first unacknowledged
    /// byte: given the `sent` bytes of the buffer handed out so far, returns
    /// the offset to send from again, and takes the sequence identifier back
    pub fn rewind(&mut self, sent: usize) -> (from: usize)
        requires
            seq_sub(old(self).seq, old(self).remote_ack) <= sent,
        ensures
            from == sent - seq_sub(old(self).seq, old(self).remote_ack),
            final(self).seq == old(self).remote_ack,
            final(self).state == old(self).state,
            final(self).ack == old(self).ack,
            final(self).remote_ack == old(self).remote_ack,
            final(self).remote_window == old(self).remote_window,
            final(self).window@ == old(self).window@,
            final(self).server == old(self).server,
            final(self).port == old(self).port,
    {
        let unacked = self.unacked() as usize;
        self.seq = self.remote_ack;
        sent - unacked
    }

    /// How many of the `to_send` bytes left the remote end can accept now:
    /// its window minus what it has not acknowledged yet
    pub fn sendable(&self, to_send: usize) -> (n: usize)
        ensures
            n == (if to_send < self.remote_window - seq_sub(self.seq, self.remote_ack) {
                to_send as int
            } else if self.remote_window >= seq_sub(self.seq, self.remote_ack) {
                self.remote_window - seq_sub(self.seq, self.remote_ack)
            } else {
                0
            }),
    {
        let unacked = self.unacked() as usize;
        let room = (self.remote_window as usize).saturating_sub(unacked);
        if to_send < room {
            to_send
        } else {
            room
        }
    }

    /// Record that a segment of `len` bytes was sent
    pub fn record_sent(&mut self, len: u32)
        ensures
            final(self).seq == seq_add(old(self).seq, len),
            final(self).state == old(self).state,
            final(self).ack == old(self).ack,
            final(self).remote_ack == old(self).remote_ack,
            final(self).remote_window == old(self).remote_window,
            final(self).window@ == old(self).window@,
            final(self).server == old(self).server,
            final(self).port == old(self).port,
    {
        self.seq = self.seq.wrapping_add(len);
    }
}

/// The maximum segment size used with a remote end announcing `remote_mss`
pub fn capped_mss(remote_mss: u16) -> (mss: usize)
    ensures
        mss == (if remote_mss < MAX_MSS { remote_mss as int } else { MAX_MSS as int }),
{
    if (remote_mss as usize) < MAX_MSS {
        remote_mss as usize
    } else {
        MAX_MSS
    }
}

/// The sizes of the segments `remaining` bytes are cut into, `mss` at most
/// each, in order; only the last one carries the push flag
pub fn segment_sizes(remaining: usize, mss: usize) -> (sizes: Vec<usize>)
    requires
        mss > 0,
    ensures
        sizes@.len() == (remaining + mss - 1) / mss as int,
        forall|i: int| 0 <= i < sizes@.len() ==> #[trigger] sizes@[i] == (if (i + 1) * mss
            <= remaining {
            mss as int
        } else {
            remaining - i * mss
        }),
{
    let mut sizes: Vec<usize> = Vec::new();
    let mut left = remaining;
    assert(0 * (mss as int) == 0) by (nonlinear_arith);
    while left > 0
        invariant
            mss > 0,
            left <= remaining,
            remaining - left == sizes@.len() * mss,
            forall|i: int| 0 <= i < sizes@.len() ==> #[trigger] sizes@[i] == mss,
        decreases left,
    {
        if left <= mss {
            let ghost k = sizes@.len();
            sizes.push(left);
            proof {
                assert(remaining == k * mss + left);
                assert((remaining + mss - 1) / mss as int == k + 1) by (nonlinear_arith)
                    requires
                        remaining == k * mss + left,
                        0 < left <= mss,
                ;
                assert forall|i: int| 0 <= i < sizes@.len() implies #[trigger] sizes@[i] == (if (i
                    + 1) * mss <= remaining {
                    mss as int
                } else {
                    remaining - i * mss
                }) by {
                    if i < k {
                        assert((i + 1) * mss <= k * mss) by (nonlinear_arith)
                            requires
                                i < k,
                                0 <= i,
                        ;
                    } else {
                        assert(i == k);
                        if left < mss {
                            assert((k + 1) * mss > remaining) by (nonlinear_arith)
                                requires
                                    remaining == k * mss + left,
                                    left < mss,
                            ;
                        } else {
                            assert((k + 1) * mss == remaining) by (nonlinear_arith)
                                requires
                                    remaining == k * mss + left,
                                    left == mss,
                            ;
                        }
                    }
                }
            }
            return sizes;
        }
        sizes.push(mss);
        left = left - mss;
        proof {
            assert(remaining - left == sizes@.len() * mss) by (nonlinear_arith)
                requires
                    remaining - (left + mss) == (sizes@.len() - 1) * mss,
            ;
        }
    }
    proof {
        assert(sizes@.len() * mss == remaining);
        assert((remaining + mss - 1) / mss as int == sizes@.len()) by (nonlinear_arith)
            requires
                sizes@.len() * mss == remaining,
                mss > 0,
        ;
        assert forall|i: int| 0 <= i < sizes@.len() implies (#[trigger] sizes@[i]) == (if (i + 1)
            * mss <= remaining {
            mss as int
        } else {
            remaining - i * mss
        }) by {
            assert((i + 1) * mss <= sizes@.len() * mss) by (nonlinear_arith)
                requires
                    i < sizes@.len(),
                    0 <= i,
            ;
        }
    }
    sizes
}

/// The flags of the segment at `index` among `count` segments of a send:
/// an ACK, pushed when it is the last one
pub fn segment_flags(index: usize, count: usize) -> (flags: u8)
    requires
        index < count,
    ensures
        flags == (if index + 1 == count { TCP_ACK | TCP_PSH } else { TCP_ACK }),
{
    if index + 1 == count {
        TCP_ACK | TCP_PSH
    } else {
        TCP_ACK
    }
}


/// A closed connection ignores every segment and stays closed, and a reset
/// closes an open connection without being answered
pub proof fn lemma_closed_and_reset(
    c: InternalView,
    flags: u8,
    seq: u32,
    ack: u32,
    window: u16,
    payload: Seq<u8>,
)
    ensures
        c.state == TcpState::Closed ==> spec_handle(c, flags, seq, ack, window, payload) == (
            c,
            None::<Option<AckSegment>>,
        ),
        flags & TCP_RST != 0 ==> spec_handle(c, flags, seq, ack, window, payload).0.state
            == TcpState::Closed && spec_handle(c, flags, seq, ack, window, payload).1 is None,
{
}

/// The receive window never grows past its size, and grows by exactly the
/// payload of an accepted segment
pub proof fn lemma_window_bounded(
    c: InternalView,
    flags: u8,
    seq: u32,
    ack: u32,
    window: u16,
    payload: Seq<u8>,
)
    requires
        c.window.len() <= WINDOW_SIZE,
    ensures
        spec_handle(c, flags, seq, ack, window, payload).0.window.len() <= WINDOW_SIZE,
        spec_handle(c, flags, seq, ack, window, payload).0.window == c.window || spec_handle(
            c,
            flags,
            seq,
            ack,
            window,
            payload,
        ).0.window == c.window + payload,
{
}

/// A segment that the connection takes (it is open, the segment is an ACK
/// without reset, acknowledges no byte beyond those sent, comes in order and
/// fits the receive window) records the segment's acknowledgement and window
/// as the remote end's, whether or not an ACK is owed in return; a bare ACK,
/// with no payload and no SYN, is answered with nothing
pub proof fn lemma_accepted_segment_updates_remote(
    c: InternalView,
    flags: u8,
    seq: u32,
    ack: u32,
    window: u16,
    payload: Seq<u8>,
)
    requires
        c.state != TcpState::Closed,
        flags & TCP_RST == 0,
        flags & TCP_ACK != 0,
        seq_sub(ack, c.remote_ack) <= seq_sub(c.seq, c.remote_ack),
        c.state == TcpState::Established ==> seq == c.ack,
        c.state == TcpState::Established && payload.len() > 0 ==> payload.len() + c.window.len()
            <= WINDOW_SIZE,
    ensures
        spec_handle(c, flags, seq, ack, window, payload).1 is Some,
        spec_handle(c, flags, seq, ack, window, payload).0.remote_ack == ack,
        spec_handle(c, flags, seq, ack, window, payload).0.remote_window == window,
        spec_handle(c, flags, seq, ack, window, payload).0.seq == c.seq,
        payload.len() == 0 && flags & TCP_SYN == 0 ==> spec_handle(
            c,
            flags,
            seq,
            ack,
            window,
            payload,
        ).1 == Some(None::<AckSegment>),
{
}

/// Where opening a connection stands: the attempts made so far, out of
/// `retries`, and whether a port is being picked or a SYN-ACK awaited
#[derive(Debug, Clone, Copy, PartialEq, Eq, Structural)]
pub struct ConnectState {
    /// Attempts made so far
    pub attempts: usize,
    /// Attempts allowed
    pub retries: usize,
    /// What the connection waits for
    pub phase: ConnectPhase,
}

/// What opening a connection waits for
#[derive(Debug, Clone, Copy, PartialEq, Eq, Structural)]
pub enum ConnectPhase {
    /// A port to try
    Pick,
    /// The SYN-ACK on `port`, until the TSC reaches `deadline`
    Waiting { port: u16, deadline: u64 },
}

/// What happened since the last step of opening a connection
#[derive(Debug, Clone, Copy, PartialEq, Eq, Structural)]
pub enum ConnectEvent {
    /// The allocator handed out `port`, which is `bound` already or not; the
    /// SYN-ACK is awaited until `deadline`
    Picked { port: u16, bound: bool, deadline: u64 },
    /// The TSC reads `now`, and the connection on the awaited port is
    /// `established` or not
    Tick { now: u64, established: bool },
}

/// What to do next to open a connection
#[derive(Debug, Clone, Copy, PartialEq, Eq, Structural)]
pub enum ConnectAction {
    /// Pick the next port
    PickNext,
    /// Bind a connection on `port` and send its SYN
    Open(u16),
    /// Receive a segment and hand it to the connections
    Wait,
    /// Unbind the connection on `port` that timed out, then pick the next
    /// port, or give up when `give_up`
    Unbind { port: u16, give_up: bool },
    /// The connection on this port is established
    Connected(u16),
    /// Every attempt failed
    GiveUp,
}

impl ConnectState {
    /// Nothing tried yet, `retries` attempts allowed
    pub fn new(retries: usize) -> (st: ConnectState)
        ensures
            st == (ConnectState { attempts: 0, retries, phase: ConnectPhase::Pick }),
    {
        ConnectState { attempts: 0, retries, phase: ConnectPhase::Pick }
    }

    /// The first action: pick a port, unless no attempt is allowed
    pub fn first_action(&self) -> (a: ConnectAction)
        ensures
            a == (if self.attempts < self.retries {
                ConnectAction::PickNext
            } else {
                ConnectAction::GiveUp
            }),
    {
        if self.attempts < self.retries {
            ConnectAction::PickNext
        } else {
            ConnectAction::GiveUp
        }
    }
}

/// One step of opening a connection. A port already bound counts one
/// attempt and leads to the next port; a wait that times out before the
/// connection is established unbinds the port and counts one attempt; once
/// the attempts reach the limit, opening gives up; an established connection
/// returns its port; otherwise the step waits.
pub open spec fn spec_connect_step(st: ConnectState, ev: ConnectEvent) -> (ConnectState, ConnectAction) {
    match (st.phase, ev) {
        (ConnectPhase::Pick, ConnectEvent::Picked { port, bound, deadline }) => {
            if bound {
                let st2 = ConnectState { attempts: (st.attempts + 1) as usize, ..st };
                if st.attempts + 1 >= st.retries {
                    (st2, ConnectAction::GiveUp)
                } else {
                    (st2, ConnectAction::PickNext)
                }
            } else {
                (
                    ConnectState { phase: ConnectPhase::Waiting { port, deadline }, ..st },
                    ConnectAction::Open(port),
                )
            }
        },
        (ConnectPhase::Waiting { port, deadline }, ConnectEvent::Tick { now, established }) => {
            if established {
                (st, ConnectAction::Connected(port))
            } else if now >= deadline {
                (
                    ConnectState { attempts: (st.attempts + 1) as usize, phase: ConnectPhase::Pick, ..st },
                    ConnectAction::Unbind { port, give_up: st.attempts + 1 >= st.retries },
                )
            } else {
                (st, ConnectAction::Wait)
            }
        },
        _ => (st, ConnectAction::Wait),
    }
}

/// Take one step of opening a connection
pub fn connect_step(st: ConnectState, ev: ConnectEvent) -> (r: (ConnectState, ConnectAction))
    requires
        st.attempts < st.retries,
    ensures
        r == spec_connect_step(st, ev),
        r.0.attempts <= r.0.retries,
        r.1 matches ConnectAction::Unbind { give_up, .. } ==> give_up == (r.0.attempts
            == r.0.retries),
{
    match (st.phase, ev) {
        (ConnectPhase::Pick, ConnectEvent::Picked { port, bound, deadline }) => {
            if bound {
                let st2 = ConnectState { attempts: st.attempts + 1, ..st };
                if st.attempts + 1 >= st.retries {
                    (st2, ConnectAction::GiveUp)
                } else {
                    (st2, ConnectAction::PickNext)
                }
            } else {
                (
                    ConnectState { phase: ConnectPhase::Waiting { port, deadline }, ..st },
                    ConnectAction::Open(port),
                )
            }
        },
        (ConnectPhase::Waiting { port, deadline }, ConnectEvent::Tick { now, established }) => {
            if established {
                (st, ConnectAction::Connected(port))
            } else if now >= deadline {
                (
                    ConnectState { attempts: st.attempts + 1, phase: ConnectPhase::Pick, ..st },
                    ConnectAction::Unbind { port, give_up: st.attempts + 1 >= st.retries },
                )
            } else {
                (st, ConnectAction::Wait)
            }
        },
        _ => (st, ConnectAction::Wait),
    }
}

/// Opening a connection gives up only once every allowed attempt was made: a
/// wait that times out before the connection is established unbinds its
/// port and counts one attempt, and asks to give up exactly when the
/// attempts, this one included, reach the allowed retries; an attempt
/// refused at once for a bound port gives up likewise
pub proof fn lemma_connect_gives_up_when_exhausted(st: ConnectState, ev: ConnectEvent)
    requires
        st.attempts < st.retries,
    ensures
        spec_connect_step(st, ev).1 is GiveUp ==> spec_connect_step(st, ev).0.attempts
            == st.retries,
        spec_connect_step(st, ev).1 matches ConnectAction::Unbind { give_up, .. } ==> give_up
            == (st.attempts + 1 == st.retries),
        ({
            &&& st.phase matches ConnectPhase::Waiting { port, deadline }
            &&& ev matches ConnectEvent::Tick { now, established }
            &&& !established
            &&& now >= deadline
        }) ==> spec_connect_step(st, ev) == (
            ConnectState {
                attempts: (st.attempts + 1) as usize,
                retries: st.retries,
                phase: ConnectPhase::Pick,
            },
            ConnectAction::Unbind {
                port: st.phase->port,
                give_up: st.attempts + 1 == st.retries,
            },
        ),
{
}

/// Where sending a buffer over a connection stands: the bytes handed out so
/// far, the TSC value at which an ACK is considered lost, and what comes next
#[derive(Debug, Clone, Copy, PartialEq, Eq, Structural)]
pub struct SendState {
    /// Bytes of the buffer handed out so far
    pub sent: usize,
    /// TSC value at which an ACK is considered lost
    pub timeout: u64,
    /// What the send waits for
    pub phase: SendPhase,
}

/// What sending a buffer waits for
#[derive(Debug, Clone, Copy, PartialEq, Eq, Structural)]
pub enum SendPhase {
    /// The time, to check the connection and the ACKs
    Check,
    /// A segment received, to send what the remote window takes
    Send,
}

/// A segment to send: `len` bytes of the buffer from `start`, with the
/// header fields of `seg`
#[derive(Debug, Clone, Copy, PartialEq, Eq, Structural)]
pub struct Segment {
    pub start: usize,
    pub len: usize,
    pub seg: AckSegment,
}

/// What to do next to send a buffer
#[derive(Debug, Clone, PartialEq, Eq)]
pub enum SendAction {
    /// The connection is not established: the send fails
    Fail,
    /// Every byte was sent and acknowledged
    Done,
    /// Receive a segment and hand it to the connections
    Receive,
    /// Send these segments, in order
    Send(Vec<Segment>),
    /// Nothing can be sent now: check again
    Nothing,
}

impl SendState {
    /// Nothing sent yet, and no ACK awaited
    pub fn new() -> (st: SendState)
        ensures
            st == (SendState { sent: 0, timeout: u64::MAX, phase: SendPhase::Check }),
    {
        SendState { sent: 0, timeout: u64::MAX, phase: SendPhase::Check }
    }
}

/// The bytes the remote end can accept out of `to_send`: its window minus
/// what it has not acknowledged yet
pub open spec fn spec_sendable(c: InternalView, to_send: int) -> int {
    if to_send < c.remote_window - seq_sub(c.seq, c.remote_ack) {
        to_send
    } else if c.remote_window >= seq_sub(c.seq, c.remote_ack) {
        c.remote_window - seq_sub(c.seq, c.remote_ack)
    } else {
        0
    }
}

/// The part of `rem` bytes that the first `i` segments of `m` bytes hold
pub open spec fn segments_upto(i: int, m: int, rem: int) -> int {
    if i * m <= rem { i * m } else { rem }
}

/// The `i`-th of the `n` segments of at most `m` bytes cutting `rem` bytes
/// of the buffer from `sent` on, sent over the connection `c`
pub open spec fn spec_segment(c: InternalView, sent: int, rem: int, m: int, n: int, i: int) -> Segment {
    Segment {
        start: (sent + i * m) as usize,
        len: (if (i + 1) * m <= rem { m } else { rem - i * m }) as usize,
        seg: AckSegment {
            flags: if i + 1 == n { TCP_ACK | TCP_PSH } else { TCP_ACK },
            seq: seq_add(c.seq, (i * m) as u32),
            ack: c.ack,
            window: window_room(c.window.len()),
        },
    }
}

/// Bounds of the `i`-th segment of at most `m` bytes cutting `rem` bytes
proof fn lemma_segment_bounds(rem: int, m: int, i: int)
    requires
        m > 0,
        rem >= 0,
        0 <= i < (rem + m - 1) / m,
    ensures
        i * m < rem,
        (i + 1) * m <= rem ==> segments_upto(i + 1, m, rem) == i * m + m,
        (i + 1) * m > rem ==> segments_upto(i + 1, m, rem) == rem,
        segments_upto(i, m, rem) == i * m,
{
    assert(i * m < rem) by (nonlinear_arith)
        requires
            m > 0,
            rem >= 0,
            0 <= i < (rem + m - 1) / m,
    ;
    assert((i + 1) * m == i * m + m) by (nonlinear_arith);
}

/// One step of sending `len` bytes over the connection `con`, with the
/// remote end's MSS `mss`.
///
/// When checking at the TSC value `now`: a connection that is not
/// established fails the send; once the ACK timeout is reached, the sending
/// rewinds to the first unacknowledged byte (`sent` loses the unacknowledged
/// bytes and the sequence identifier goes back to the remote ACK); the send
/// is done exactly when every byte was sent and none is unacknowledged;
/// otherwise a segment is to be received. Once it is, the bytes the remote
/// window takes are cut into segments of at most the capped MSS, handed out,
/// and their ACK awaited until `deadline`.
pub fn send_step(st: SendState, con: &mut Internal, ev_now: u64, deadline: u64, len: usize, mss: u16)
    -> (r: (SendState, SendAction))
    requires
        old(con).wf(),
        st.sent <= len,
        mss > 0,
        st.phase == SendPhase::Check && old(con).state == TcpState::Established && ev_now
            >= st.timeout ==> seq_sub(old(con).seq, old(con).remote_ack) <= st.sent,
    ensures
        final(con).wf(),
        final(con).server == old(con).server,
        final(con).port == old(con).port,
        final(con)@.state == old(con)@.state,
        final(con)@.ack == old(con)@.ack,
        final(con)@.remote_ack == old(con)@.remote_ack,
        final(con)@.remote_window == old(con)@.remote_window,
        final(con)@.window == old(con)@.window,
        r.0.sent <= len,
        // Checking
        st.phase == SendPhase::Check && old(con).state != TcpState::Established ==> r.1 == SendAction::Fail && r.0 == st && final(con)@ == old(con)@,
        st.phase == SendPhase::Check && old(con).state == TcpState::Established ==> {
            let rewind = ev_now >= st.timeout;
            let sent = if rewind { st.sent - seq_sub(old(con).seq, old(con).remote_ack) } else { st.sent as int };
            &&& final(con).seq == (if rewind { old(con).remote_ack } else { old(con).seq })
            &&& r.0.sent == sent
            &&& r.0.timeout == st.timeout
            &&& (r.1 == SendAction::Done <==> (sent == len && seq_sub(final(con).seq, final(con).remote_ack) == 0))
            &&& r.1 != SendAction::Done ==> r.1 == SendAction::Receive && r.0.phase == SendPhase::Send
        },
        // Sending
        st.phase == SendPhase::Send ==> {
            let rem = spec_sendable(old(con)@, len - st.sent);
            let m = if mss < MAX_MSS { mss as int } else { MAX_MSS as int };
            let n = (rem + m - 1) / m;
            &&& r.0.phase == SendPhase::Check
            &&& rem == 0 ==> r.1 == SendAction::Nothing && r.0 == (SendState { phase: SendPhase::Check, ..st }) && final(con)@ == old(con)@
            &&& rem > 0 ==> {
                &&& r.0 == (SendState { sent: (st.sent + rem) as usize, timeout: deadline, phase: SendPhase::Check })
                &&& final(con).seq == seq_add(old(con).seq, rem as u32)
                &&& r.1 matches SendAction::Send(segs) && segs@.len() == n && forall|i: int| 0 <= i < n ==> #[trigger] segs@[i] == spec_segment(old(con)@, st.sent as int, rem, m, n, i)
            }
        },
{
    match st.phase {
        SendPhase::Check => {
            if con.state != TcpState::Established {
                return (st, SendAction::Fail);
            }
            let mut sent = st.sent;
            // On an ACK timeout, rewind to the first unacknowledged byte
            if ev_now >= st.timeout {
                sent = con.rewind(sent);
            }
            let unacked = con.unacked();
            if sent == len && unacked == 0 {
                (SendState { sent, ..st }, SendAction::Done)
            } else {
                (SendState { sent, phase: SendPhase::Send, ..st }, SendAction::Receive)
            }
        },
        SendPhase::Send => {
            let rem = con.sendable(len - st.sent);
            if rem == 0 {
                return (SendState { phase: SendPhase::Check, ..st }, SendAction::Nothing);
            }
            let m = capped_mss(mss);
            let sizes = segment_sizes(rem, m);
            let n = sizes.len();
            let ghost c0 = con@;
            let mut segs: Vec<Segment> = Vec::new();
            let mut i: usize = 0;
            let mut off: usize = 0;
            proof {
                assert(rem <= 0xFFFF);
                assert(0 * m == 0) by (nonlinear_arith);
            }
            while i < n
                invariant
                    con.wf(),
                    0 < m,
                    0 < rem <= 0xFFFF,
                    st.sent + rem <= len,
                    n == sizes@.len(),
                    n == (rem + m - 1) / m as int,
                    forall|k: int| 0 <= k < n ==> #[trigger] sizes@[k] == (if (k + 1) * m <= rem { m as int } else { rem - k * m }),
                    i <= n,
                    off == segments_upto(i as int, m as int, rem as int),
                    con.seq == seq_add(c0.seq, off as u32),
                    con@.window == c0.window,
                    con.ack == c0.ack,
                    con.state == c0.state,
                    con.remote_ack == c0.remote_ack,
                    con.remote_window == c0.remote_window,
                    con.server == old(con).server,
                    con.port == old(con).port,
                    segs@.len() == i,
                    forall|k: int| 0 <= k < i ==> #[trigger] segs@[k] == spec_segment(c0, st.sent as int, rem as int, m as int, n as int, k),
                decreases n - i,
            {
                proof {
                    lemma_segment_bounds(rem as int, m as int, i as int);
                }
                let size = sizes[i];
                let seg = Segment {
                    start: st.sent + off,
                    len: size,
                    seg: AckSegment {
                        flags: segment_flags(i, n),
                        seq: con.seq,
                        ack: con.ack,
                        window: con.window_room(),
                    },
                };
                con.record_sent(size as u32);
                segs.push(seg);
                off = off + size;
                i = i + 1;
            }
            proof {
                assert(n * m >= rem) by (nonlinear_arith)
                    requires
                        0 < m,
                        n == (rem + m - 1) / m as int,
                ;
            }
            (SendState { sent: st.sent + rem, timeout: deadline, phase: SendPhase::Check }, SendAction::Send(segs))
        },
    }
}

} // verus!
