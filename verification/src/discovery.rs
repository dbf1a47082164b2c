//! The per-node discovery controller: role handshakes on fresh sockets,
//! the node map updates and data-connection inference on accepted control
//! connections, control liveness, and the retry policy. Socket I/O itself
//! is the caller's business: these are the decisions between the awaits.

use vstd::prelude::*;

use crate::book::AddressBook;
use crate::codec::{WireMessage, WireMessageView};
use crate::context::{delivered, live, Context};
use crate::envelope::MessageKind;
use crate::messages::{clone_groups, groups_view, GroupInfo, Message, MessageView};
use crate::node_map::{infer_connections, spec_group_name, spec_infer, NodeInfo, NodeMap};

verus! {

/// Initial flow window of every data connection.
pub const INITIAL_WINDOW_SIZE: i32 = 100_000;

/// What a socket is for, once decided. A server-side socket starts Unknown
/// until the peer's first message commits it.
#[derive(Debug, PartialEq)]
pub enum ConnectionRole {
    Unknown,
    /// The groups the peer announced (or, when dialing, ours to offer).
    Control(Vec<GroupInfo>),
    Data { my_group_no: u32, your_group_no: u32, initial_window: i32 },
}

impl ConnectionRole {
    pub fn as_str(&self) -> (r: &'static str)
        ensures
            match self {
                ConnectionRole::Unknown => r@ == "Unknown"@,
                ConnectionRole::Control(..) => r@ == "Control"@,
                ConnectionRole::Data { .. } => r@ == "Data"@,
            },
    {
        match self {
            ConnectionRole::Unknown => "Unknown",
            ConnectionRole::Control(..) => "Control",
            ConnectionRole::Data { .. } => "Data",
        }
    }
}

/// Why a handshake was rejected.
#[derive(Clone, Copy, PartialEq, Eq, Structural, Debug)]
pub enum HandshakeError {
    /// The first message was not one of the allowed switches.
    UnexpectedMessage,
}

/// The per-node discovery state.
pub struct Discovery {
    ctx: Context,
    node_map: NodeMap,
}

impl Discovery {
    pub closed spec fn spec_ctx(self) -> Context {
        self.ctx
    }

    pub closed spec fn spec_node_map(self) -> NodeMap {
        self.node_map
    }

    pub fn new(ctx: Context, this: NodeInfo) -> (d: Discovery)
        ensures
            d.spec_ctx() == ctx,
            d.spec_node_map().spec_this() == this@,
            forall|no: u16| #[trigger] d.spec_node_map().spec_peer(no) is None,
    {
        Discovery { ctx, node_map: NodeMap::new(this) }
    }

    /// The capability bits offered to peers: LZ4 when compression says so.
    pub fn get_capabilities(&self) -> (r: u32)
        requires
            self.spec_ctx().spec_config() is Some,
        ensures
            r == (if self.spec_ctx().spec_config().unwrap()@.lz4 {
                1u32
            } else {
                0u32
            }),
    {
        if self.ctx.config().lz4 {
            1
        } else {
            0
        }
    }

    /// A socket whose peer reports our own node number is a self-connection
    /// and is dropped without an event.
    pub fn is_self_connection(&self, peer_node_no: u16) -> (r: bool)
        ensures
            r == (peer_node_no == self.spec_node_map().spec_this().node_no),
    {
        peer_node_no == self.node_map.this_node().node_no
    }

    /// The control offer dialed at a predefined peer: our groups.
    pub fn discover_one(&self) -> (m: WireMessage)
        ensures
            m@ matches WireMessageView::SwitchToControl { groups } && groups == self.spec_node_map(
            ).spec_this().groups,
    {
        WireMessage::SwitchToControl { groups: clone_groups(&self.node_map.this_node().groups) }
    }

    /// Server side of the handshake: the peer's first message decides the
    /// role. A control offer is answered with our own groups; a data offer is
    /// echoed with the group numbers swapped and our initial window; anything
    /// else is rejected naming the allowed set.
    pub fn accept_connection(&self, received: WireMessage) -> (r: Result<
        (WireMessage, ConnectionRole),
        HandshakeError,
    >)
        ensures
            match received@ {
                WireMessageView::SwitchToControl { groups } => r matches Ok((reply, role)) && (
                reply@ matches WireMessageView::SwitchToControl { groups: ours } && ours
                    == self.spec_node_map().spec_this().groups) && (
                role matches ConnectionRole::Control(g) && groups_view(g@) == groups),
                WireMessageView::SwitchToData { my_group_no, your_group_no, initial_window } => r
                    matches Ok((reply, role)) && reply@ == (WireMessageView::SwitchToData {
                    my_group_no: your_group_no,
                    your_group_no: my_group_no,
                    initial_window: INITIAL_WINDOW_SIZE,
                }) && role == (ConnectionRole::Data { my_group_no, your_group_no, initial_window }),
                _ => r == Err::<(WireMessage, ConnectionRole), HandshakeError>(
                    HandshakeError::UnexpectedMessage,
                ),
            },
    {
        match received {
            WireMessage::SwitchToControl { groups } => {
                let reply = WireMessage::SwitchToControl {
                    groups: clone_groups(&self.node_map.this_node().groups),
                };
                Ok((reply, ConnectionRole::Control(groups)))
            },
            WireMessage::SwitchToData { my_group_no, your_group_no, initial_window } => {
                let reply = WireMessage::SwitchToData {
                    my_group_no: your_group_no,
                    your_group_no: my_group_no,
                    initial_window: INITIAL_WINDOW_SIZE,
                };
                Ok((reply, ConnectionRole::Data { my_group_no, your_group_no, initial_window }))
            },
            _ => Err(HandshakeError::UnexpectedMessage),
        }
    }

    /// Client side of the handshake: after sending our switch, the peer must
    /// answer with a switch of the same kind.
    pub fn expect_reply(&self, sent: &ConnectionRole, reply: WireMessage) -> (r: Result<
        ConnectionRole,
        HandshakeError,
    >)
        ensures
            match (sent, reply@) {
                (ConnectionRole::Control(..), WireMessageView::SwitchToControl { groups }) => r
                    matches Ok(role) && (role matches ConnectionRole::Control(g) && groups_view(g@)
                    == groups),
                (
                    ConnectionRole::Data { .. },
                    WireMessageView::SwitchToData { my_group_no, your_group_no, initial_window },
                ) => r matches Ok(role) && role == (ConnectionRole::Data {
                    my_group_no,
                    your_group_no,
                    initial_window,
                }),
                _ => r == Err::<ConnectionRole, HandshakeError>(HandshakeError::UnexpectedMessage),
            },
    {
        match (sent, reply) {
            (ConnectionRole::Control(..), WireMessage::SwitchToControl { groups }) => Ok(
                ConnectionRole::Control(groups),
            ),
            (
                ConnectionRole::Data { .. },
                WireMessage::SwitchToData { my_group_no, your_group_no, initial_window },
            ) => Ok(ConnectionRole::Data { my_group_no, your_group_no, initial_window }),
            _ => Err(HandshakeError::UnexpectedMessage),
        }
    }

    /// An accepted control connection: remember the peer, and — when we know
    /// the transport, so only on the initiating side — compute every
    /// interesting pair of groups to open data connections for: the remote
    /// groups interested in ours, swapped into (local, remote) order, then
    /// ours interested in theirs.
    pub fn on_control_accepted(
        &mut self,
        peer_node_no: u16,
        peer_launch_id: u64,
        remote_groups: Vec<GroupInfo>,
        transport_known: bool,
    ) -> (pairs: Vec<(u32, u32)>)
        ensures
            final(self).spec_ctx() == old(self).spec_ctx(),
            final(self).spec_node_map().spec_this() == old(self).spec_node_map().spec_this(),
            final(self).spec_node_map().spec_peer(peer_node_no) matches Some(info)
                && info.node_no == peer_node_no && info.launch_id == peer_launch_id && info.groups
                == groups_view(remote_groups@),
            forall|no: u16|
                no != peer_node_no ==> #[trigger] final(self).spec_node_map().spec_peer(no) == old(
                    self,
                ).spec_node_map().spec_peer(no),
            !transport_known ==> pairs@.len() == 0,
            transport_known ==> pairs@ == spec_swapped(
                spec_infer(
                    groups_view(remote_groups@),
                    old(self).spec_node_map().spec_this().groups,
                ),
            ) + spec_infer(
                old(self).spec_node_map().spec_this().groups,
                groups_view(remote_groups@),
            ),
    {
        let forward = infer_connections(&remote_groups, &self.node_map.this_node().groups);
        let backward = infer_connections(&self.node_map.this_node().groups, &remote_groups);
        let info = NodeInfo {
            node_no: peer_node_no,
            launch_id: peer_launch_id,
            groups: remote_groups,
        };
        self.node_map.insert_peer(info);
        if !transport_known {
            return Vec::new();
        }
        let mut pairs: Vec<(u32, u32)> = Vec::new();
        let mut k: usize = 0;
        while k < forward.len()
            invariant
                k <= forward@.len(),
                pairs@ == spec_swapped(forward@).subrange(0, k as int),
            decreases forward@.len() - k,
        {
            let (remote_no, local_no) = forward[k];
            pairs.push((local_no, remote_no));
            proof {
                assert(pairs@ =~= spec_swapped(forward@).subrange(0, k as int + 1));
            }
            k = k + 1;
        }
        proof {
            assert(spec_swapped(forward@).subrange(0, forward@.len() as int) =~= spec_swapped(
                forward@,
            ));
        }
        let mut backward = backward;
        let ghost p0 = pairs@;
        let ghost b0 = backward@;
        pairs.append(&mut backward);
        proof {
            assert(pairs@ =~= p0 + b0);
        }
        pairs
    }

    /// An accepted data connection: resolve both group names — ours from our
    /// own groups, the peer's from the node map — and hand the connection to
    /// a worker of this group through its own mailbox. When either name is
    /// missing the control and data views disagree and the connection is
    /// dropped.
    pub fn on_data_accepted(
        &mut self,
        book: &mut AddressBook,
        peer_node_no: u16,
        remote_group_no: u32,
        local_group_no: u32,
        initial_window: i32,
        socket_id: u64,
    ) -> (r: bool)
        requires
            old(book).wf(),
        ensures
            final(book).wf(),
            final(self).spec_ctx() == old(self).spec_ctx(),
            final(self).spec_node_map() == old(self).spec_node_map(),
            ({
                let local_name = spec_group_name(
                    old(self).spec_node_map().spec_this().groups,
                    local_group_no,
                );
                let remote_name = match old(self).spec_node_map().spec_peer(peer_node_no) {
                    Some(info) => spec_group_name(info.groups, remote_group_no),
                    None => None,
                };
                if local_name is Some && remote_name is Some {
                    r == live(*old(book), old(self).spec_ctx().spec_group()) && (r ==> delivered(
                        *old(book),
                        *final(book),
                        old(self).spec_ctx().spec_group(),
                        MessageView::HandleConnection {
                            local_node_no: old(self).spec_node_map().spec_this().node_no,
                            local_group_no,
                            local_group_name: local_name.unwrap(),
                            remote_node_no: peer_node_no,
                            remote_group_no,
                            remote_group_name: remote_name.unwrap(),
                            socket_id,
                            initial_window,
                        },
                        MessageKind::Regular { sender: old(self).spec_ctx().spec_addr() },
                        old(self).spec_ctx().spec_trace_id(),
                    ))
                } else {
                    !r && *final(book) == *old(book)
                }
            }),
    {
        let local_name = self.node_map.local_group_name(local_group_no);
        let local_name = match local_name {
            Some(n) => n,
            None => {
                return false;
            },
        };
        let remote_name = match self.node_map.get_peer(peer_node_no) {
            Some(info) => crate::node_map::group_name_of(&info.groups, remote_group_no),
            None => None,
        };
        let remote_name = match remote_name {
            Some(n) => n,
            None => {
                return false;
            },
        };
        let message = Message::HandleConnection {
            local_node_no: self.node_map.this_node().node_no,
            local_group_no,
            local_group_name: local_name,
            remote_node_no: peer_node_no,
            remote_group_no,
            remote_group_name: remote_name,
            socket_id,
            initial_window,
        };
        let group = self.ctx.group();
        match self.ctx.send_to(book, group, message) {
            Ok(()) => true,
            Err(_) => false,
        }
    }

    /// The retry policy for a failed data connection: wait one second, then
    /// redial the saved group pair.
    pub fn on_data_connection_failed(
        &self,
        local_group_no: u32,
        remote_group_no: u32,
    ) -> (r: (u64, ConnectionRole))
        ensures
            r.0 == 1000,
            r.1 == (ConnectionRole::Data {
                my_group_no: local_group_no,
                your_group_no: remote_group_no,
                initial_window: INITIAL_WINDOW_SIZE,
            }),
    {
        (
            1000,
            ConnectionRole::Data {
                my_group_no: local_group_no,
                your_group_no: remote_group_no,
                initial_window: INITIAL_WINDOW_SIZE,
            },
        )
    }

    /// The retry policy for a failed control connection: redial known
    /// transports after five seconds; as the acceptor we know none, and the
    /// peer redials.
    pub fn on_control_connection_failed(&self, transport_known: bool) -> (r: Option<u64>)
        ensures
            r == (if transport_known {
                Some(5000u64)
            } else {
                None::<u64>
            }),
    {
        if transport_known {
            Some(5000)
        } else {
            None
        }
    }
}

/// Each inferred (remote, local) pair, swapped into (local, remote) order.
pub open spec fn spec_swapped(pairs: Seq<(u32, u32)>) -> Seq<(u32, u32)> {
    pairs.map_values(|p: (u32, u32)| (p.1, p.0))
}

/// Dial retries are staggered by the launch id so restarting nodes do not
/// synchronize: the base interval plus `launch_id mod 5000` milliseconds.
pub fn retry_delay(attempt_interval_ms: u64, launch_id: u64) -> (r: u64)
    ensures
        attempt_interval_ms + launch_id % 5000 <= u64::MAX ==> r == attempt_interval_ms + launch_id
            % 5000,
        attempt_interval_ms + launch_id % 5000 > u64::MAX ==> r == u64::MAX,
{
    let shift = launch_id % 5000;
    if attempt_interval_ms > u64::MAX - shift {
        u64::MAX
    } else {
        attempt_interval_ms + shift
    }
}

/// The control liveness exchange: Ping(0), the peer's Ping(0), Pong(0), the
/// peer's Pong(0), then ten seconds of sleep, over and over. Any unexpected
/// message fails the connection.
#[derive(Clone, Copy, PartialEq, Eq, Structural, Debug)]
pub enum ControlPhase {
    SendPing,
    ExpectPing,
    SendPong,
    ExpectPong,
    Sleep,
}

/// What the driver of a control connection must do next.
#[derive(Debug, PartialEq)]
pub enum ControlAction {
    Send(WireMessage),
    Receive,
    SleepMs(u64),
    Fail,
}

/// One step of control maintenance: what to do in this phase, and the phase
/// after the driver reports the outcome.
pub fn control_maintenance_step(phase: ControlPhase, received: Option<WireMessage>) -> (r: (
    ControlPhase,
    ControlAction,
))
    ensures
        match phase {
            ControlPhase::SendPing => r.0 == ControlPhase::ExpectPing && (
            r.1 matches ControlAction::Send(m) && m@ == (WireMessageView::Ping { payload: 0 })),
            ControlPhase::ExpectPing => match received {
                Some(m) => if m@ == (WireMessageView::Ping { payload: 0 }) {
                    r.0 == ControlPhase::SendPong && r.1 is Receive
                } else {
                    r.1 is Fail
                },
                None => r.1 is Receive && r.0 == ControlPhase::ExpectPing,
            },
            ControlPhase::SendPong => r.0 == ControlPhase::ExpectPong && (
            r.1 matches ControlAction::Send(m) && m@ == (WireMessageView::Pong { payload: 0 })),
            ControlPhase::ExpectPong => match received {
                Some(m) => if m@ == (WireMessageView::Pong { payload: 0 }) {
                    r.0 == ControlPhase::Sleep && (r.1 matches ControlAction::SleepMs(d) && d
                        == 10000)
                } else {
                    r.1 is Fail
                },
                None => r.1 is Receive && r.0 == ControlPhase::ExpectPong,
            },
            ControlPhase::Sleep => r.0 == ControlPhase::SendPing && (
            r.1 matches ControlAction::Send(m) && m@ == (WireMessageView::Ping { payload: 0 })),
        },
{
    match phase {
        ControlPhase::SendPing => (
            ControlPhase::ExpectPing,
            ControlAction::Send(WireMessage::Ping { payload: 0 }),
        ),
        ControlPhase::ExpectPing => match received {
            Some(m) => {
                let ok = match &m {
                    WireMessage::Ping { payload } => *payload == 0,
                    _ => false,
                };
                if ok {
                    (ControlPhase::SendPong, ControlAction::Receive)
                } else {
                    (ControlPhase::ExpectPing, ControlAction::Fail)
                }
            },
            None => (ControlPhase::ExpectPing, ControlAction::Receive),
        },
        ControlPhase::SendPong => (
            ControlPhase::ExpectPong,
            ControlAction::Send(WireMessage::Pong { payload: 0 }),
        ),
        ControlPhase::ExpectPong => match received {
            Some(m) => {
                let ok = match &m {
                    WireMessage::Pong { payload } => *payload == 0,
                    _ => false,
                };
                if ok {
                    (ControlPhase::Sleep, ControlAction::SleepMs(10000))
                } else {
                    (ControlPhase::ExpectPong, ControlAction::Fail)
                }
            },
            None => (ControlPhase::ExpectPong, ControlAction::Receive),
        },
        ControlPhase::Sleep => (
            ControlPhase::SendPing,
            ControlAction::Send(WireMessage::Ping { payload: 0 }),
        ),
    }
}

} // verus!
