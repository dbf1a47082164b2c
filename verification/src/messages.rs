//! The messages the runtime itself routes: configuration control, lifecycle,
//! the peer handshake payloads, and a generic user payload for actor bodies.

use vstd::prelude::*;

use crate::config::{AnyConfig, AnyConfigView, ConfigError};
use crate::wire::{bytes_list_view, bytes_list_wf, bytes_wf, clone_bytes, clone_bytes_list};

verus! {

/// A group as announced during the control handshake: its number, its name,
/// and the names of the peer groups it wants a data connection with.
#[verifier::ext_equal]
#[derive(Debug, PartialEq)]
pub struct GroupInfo {
    pub group_no: u32,
    pub name: Vec<u8>,
    pub interests: Vec<Vec<u8>>,
}

/// The mathematical content of a `GroupInfo`.
pub struct GroupInfoView {
    pub group_no: u32,
    pub name: Seq<u8>,
    pub interests: Seq<Seq<u8>>,
}

impl View for GroupInfo {
    type V = GroupInfoView;

    open spec fn view(&self) -> GroupInfoView {
        GroupInfoView {
            group_no: self.group_no,
            name: self.name@,
            interests: bytes_list_view(self.interests@),
        }
    }
}

pub open spec fn group_info_wf(g: GroupInfoView) -> bool {
    bytes_wf(g.name) && bytes_list_wf(g.interests)
}

/// The deep view of a group list.
pub open spec fn groups_view(v: Seq<GroupInfo>) -> Seq<GroupInfoView> {
    v.map_values(|g: GroupInfo| g@)
}

pub open spec fn groups_wf(gs: Seq<GroupInfoView>) -> bool {
    &&& gs.len() <= u32::MAX
    &&& forall|k: int| 0 <= k < gs.len() ==> group_info_wf(#[trigger] gs[k])
}

impl GroupInfo {
    /// Copies the group description; the contract pins the copy.
    pub fn dup(&self) -> (r: GroupInfo)
        ensures
            r@ == self@,
    {
        GroupInfo {
            group_no: self.group_no,
            name: clone_bytes(&self.name),
            interests: clone_bytes_list(&self.interests),
        }
    }
}

/// Copies a group list, element for element.
pub fn clone_groups(v: &Vec<GroupInfo>) -> (r: Vec<GroupInfo>)
    ensures
        groups_view(r@) == groups_view(v@),
{
    let mut r: Vec<GroupInfo> = Vec::new();
    let mut k: usize = 0;
    while k < v.len()
        invariant
            k <= v@.len(),
            r@.len() == k,
            forall|j: int| 0 <= j < k ==> #[trigger] r@[j]@ == v@[j]@,
        decreases v@.len() - k,
    {
        r.push(v[k].dup());
        k = k + 1;
    }
    proof {
        assert(groups_view(r@) =~= groups_view(v@));
    }
    r
}

/// The mathematical content of a `Message`.
pub enum MessageView {
    ValidateConfig { config: AnyConfigView },
    UpdateConfig { config: AnyConfigView },
    ConfigUpdated,
    ConfigOk,
    ConfigRejected { reason: ConfigError },
    Terminate,
    Ping { payload: u64 },
    Pong { payload: u64 },
    HandleConnection {
        local_node_no: u16,
        local_group_no: u32,
        local_group_name: Seq<u8>,
        remote_node_no: u16,
        remote_group_no: u32,
        remote_group_name: Seq<u8>,
        socket_id: u64,
        initial_window: i32,
    },
    DataConnectionFailed {
        transport: Seq<u8>,
        local_group_no: u32,
        remote_node_no: u16,
        remote_group_no: u32,
    },
    ControlConnectionFailed { transport: Option<Seq<u8>> },
    Value { tag: u32, value: u64 },
}

impl MessageView {
    /// The stable local type id the demux and routers classify by.
    pub open spec fn ltid(self) -> u32 {
        match self {
            MessageView::ValidateConfig { .. } => 1,
            MessageView::UpdateConfig { .. } => 2,
            MessageView::ConfigUpdated => 3,
            MessageView::ConfigOk => 4,
            MessageView::ConfigRejected { .. } => 5,
            MessageView::Terminate => 6,
            MessageView::Ping { .. } => 7,
            MessageView::Pong { .. } => 8,
            MessageView::HandleConnection { .. } => 9,
            MessageView::DataConnectionFailed { .. } => 10,
            MessageView::ControlConnectionFailed { .. } => 11,
            MessageView::Value { .. } => 12,
        }
    }

    /// Well-formedness: config caches match their blobs.
    pub open spec fn wf(self) -> bool {
        match self {
            MessageView::ValidateConfig { config } => config.wf(),
            MessageView::UpdateConfig { config } => config.wf(),
            _ => true,
        }
    }
}

/// A message, as it travels through mailboxes.
#[verifier::ext_equal]
#[derive(Debug, PartialEq)]
pub enum Message {
    /// Ask a group to check a configuration blob without installing it.
    ValidateConfig { config: AnyConfig },
    /// Install a configuration blob.
    UpdateConfig { config: AnyConfig },
    /// Synthesized for the actor after its context installed a new config.
    ConfigUpdated,
    /// Positive response to a config request.
    ConfigOk,
    /// Negative response to a config request.
    ConfigRejected { reason: ConfigError },
    /// Ask an actor to terminate.
    Terminate,
    /// Control-liveness probe; also the echo request of user actors.
    Ping { payload: u64 },
    /// Control-liveness reply; also the echo response of user actors.
    Pong { payload: u64 },
    /// Hand an accepted data connection to a worker of this group.
    HandleConnection {
        local_node_no: u16,
        local_group_no: u32,
        local_group_name: Vec<u8>,
        remote_node_no: u16,
        remote_group_no: u32,
        remote_group_name: Vec<u8>,
        socket_id: u64,
        initial_window: i32,
    },
    /// A data connection died; discovery redials it after a pause.
    DataConnectionFailed {
        transport: Vec<u8>,
        local_group_no: u32,
        remote_node_no: u16,
        remote_group_no: u32,
    },
    /// A control connection died; known transports are redialed.
    ControlConnectionFailed { transport: Option<Vec<u8>> },
    /// A user payload: a stable tag plus a value.
    Value { tag: u32, value: u64 },
}

impl View for Message {
    type V = MessageView;

    open spec fn view(&self) -> MessageView {
        match self {
            Message::ValidateConfig { config } => MessageView::ValidateConfig { config: config@ },
            Message::UpdateConfig { config } => MessageView::UpdateConfig { config: config@ },
            Message::ConfigUpdated => MessageView::ConfigUpdated,
            Message::ConfigOk => MessageView::ConfigOk,
            Message::ConfigRejected { reason } => MessageView::ConfigRejected { reason: *reason },
            Message::Terminate => MessageView::Terminate,
            Message::Ping { payload } => MessageView::Ping { payload: *payload },
            Message::Pong { payload } => MessageView::Pong { payload: *payload },
            Message::HandleConnection {
                local_node_no,
                local_group_no,
                local_group_name,
                remote_node_no,
                remote_group_no,
                remote_group_name,
                socket_id,
                initial_window,
            } => MessageView::HandleConnection {
                local_node_no: *local_node_no,
                local_group_no: *local_group_no,
                local_group_name: local_group_name@,
                remote_node_no: *remote_node_no,
                remote_group_no: *remote_group_no,
                remote_group_name: remote_group_name@,
                socket_id: *socket_id,
                initial_window: *initial_window,
            },
            Message::DataConnectionFailed {
                transport,
                local_group_no,
                remote_node_no,
                remote_group_no,
            } => MessageView::DataConnectionFailed {
                transport: transport@,
                local_group_no: *local_group_no,
                remote_node_no: *remote_node_no,
                remote_group_no: *remote_group_no,
            },
            Message::ControlConnectionFailed { transport } => {
                MessageView::ControlConnectionFailed {
                    transport: match transport {
                        Some(t) => Some(t@),
                        None => None,
                    },
                }
            },
            Message::Value { tag, value } => MessageView::Value { tag: *tag, value: *value },
        }
    }
}

impl Message {
    pub fn ltid(&self) -> (r: u32)
        ensures
            r == self@.ltid(),
    {
        match self {
            Message::ValidateConfig { .. } => 1,
            Message::UpdateConfig { .. } => 2,
            Message::ConfigUpdated => 3,
            Message::ConfigOk => 4,
            Message::ConfigRejected { .. } => 5,
            Message::Terminate => 6,
            Message::Ping { .. } => 7,
            Message::Pong { .. } => 8,
            Message::HandleConnection { .. } => 9,
            Message::DataConnectionFailed { .. } => 10,
            Message::ControlConnectionFailed { .. } => 11,
            Message::Value { .. } => 12,
        }
    }

    /// Copies the message; the contract pins the copy to the original.
    pub fn dup(&self) -> (r: Message)
        ensures
            r@ == self@,
    {
        match self {
            Message::ValidateConfig { config } => Message::ValidateConfig { config: config.dup() },
            Message::UpdateConfig { config } => Message::UpdateConfig { config: config.dup() },
            Message::ConfigUpdated => Message::ConfigUpdated,
            Message::ConfigOk => Message::ConfigOk,
            Message::ConfigRejected { reason } => Message::ConfigRejected { reason: *reason },
            Message::Terminate => Message::Terminate,
            Message::Ping { payload } => Message::Ping { payload: *payload },
            Message::Pong { payload } => Message::Pong { payload: *payload },
            Message::HandleConnection {
                local_node_no,
                local_group_no,
                local_group_name,
                remote_node_no,
                remote_group_no,
                remote_group_name,
                socket_id,
                initial_window,
            } => {
                Message::HandleConnection {
                    local_node_no: *local_node_no,
                    local_group_no: *local_group_no,
                    local_group_name: clone_bytes(local_group_name),
                    remote_node_no: *remote_node_no,
                    remote_group_no: *remote_group_no,
                    remote_group_name: clone_bytes(remote_group_name),
                    socket_id: *socket_id,
                    initial_window: *initial_window,
                }
            },
            Message::DataConnectionFailed {
                transport,
                local_group_no,
                remote_node_no,
                remote_group_no,
            } => {
                Message::DataConnectionFailed {
                    transport: clone_bytes(transport),
                    local_group_no: *local_group_no,
                    remote_node_no: *remote_node_no,
                    remote_group_no: *remote_group_no,
                }
            },
            Message::ControlConnectionFailed { transport } => {
                Message::ControlConnectionFailed {
                    transport: match transport {
                        Some(t) => Some(clone_bytes(t)),
                        None => None,
                    },
                }
            },
            Message::Value { tag, value } => Message::Value { tag: *tag, value: *value },
        }
    }

}

} // verus!
