//! The node map: this node's identity and groups, the peers learned from
//! control handshakes, and the inference of which group pairs want a data
//! connection.

use vstd::prelude::*;

use crate::messages::{groups_view, GroupInfo, GroupInfoView};
use crate::wire::{clone_bytes, spec_contains_bytes};

verus! {

/// A node: its number, its per-launch random id, and its groups.
#[derive(Debug, PartialEq)]
pub struct NodeInfo {
    pub node_no: u16,
    pub launch_id: u64,
    pub groups: Vec<GroupInfo>,
}

/// The mathematical content of a `NodeInfo`.
pub struct NodeInfoView {
    pub node_no: u16,
    pub launch_id: u64,
    pub groups: Seq<GroupInfoView>,
}

impl View for NodeInfo {
    type V = NodeInfoView;

    open spec fn view(&self) -> NodeInfoView {
        NodeInfoView {
            node_no: self.node_no,
            launch_id: self.launch_id,
            groups: groups_view(self.groups@),
        }
    }
}

/// Looks a node number up in a peer list; the newest entry wins.
pub open spec fn spec_lookup(l: Seq<(u16, NodeInfoView)>, no: u16) -> Option<NodeInfoView>
    decreases l.len(),
{
    if l.len() == 0 {
        None
    } else if l.first().0 == no {
        Some(l.first().1)
    } else {
        spec_lookup(l.drop_first(), no)
    }
}

/// A prefix without the key does not decide the lookup.
proof fn lemma_lookup_skip(l: Seq<(u16, NodeInfoView)>, no: u16, k: int)
    requires
        0 <= k <= l.len(),
        forall|i: int| 0 <= i < k ==> (#[trigger] l[i]).0 != no,
    ensures
        spec_lookup(l, no) == spec_lookup(l.skip(k), no),
    decreases k,
{
    if k > 0 {
        assert(l.drop_first() =~= l.skip(1));
        lemma_lookup_skip(l.skip(1), no, k - 1);
        assert(l.skip(1).skip(k - 1) =~= l.skip(k));
    } else {
        assert(l.skip(0) =~= l);
    }
}

/// This node plus the peers seen on accepted control connections. A fresh
/// control handshake shadows what was known of the peer before.
#[derive(Debug)]
pub struct NodeMap {
    this: NodeInfo,
    peers: Vec<(u16, NodeInfo)>,
}

impl NodeMap {
    /// This node's identity and groups.
    pub closed spec fn spec_this(self) -> NodeInfoView {
        self.this@
    }

    /// The peer list, newest first.
    pub closed spec fn spec_peer_list(self) -> Seq<(u16, NodeInfoView)> {
        self.peers@.map_values(|p: (u16, NodeInfo)| (p.0, p.1@))
    }

    /// The peer known under a node number.
    pub open spec fn spec_peer(self, no: u16) -> Option<NodeInfoView> {
        spec_lookup(self.spec_peer_list(), no)
    }

    pub fn new(this: NodeInfo) -> (m: NodeMap)
        ensures
            m.spec_this() == this@,
            forall|no: u16| #[trigger] m.spec_peer(no) is None,
    {
        let m = NodeMap { this, peers: Vec::new() };
        proof {
            assert(m.spec_peer_list() =~= Seq::<(u16, NodeInfoView)>::empty());
        }
        m
    }

    /// Records a peer learned from a control handshake; it shadows whatever
    /// was known of that node before.
    pub fn insert_peer(&mut self, info: NodeInfo)
        ensures
            final(self).spec_this() == old(self).spec_this(),
            final(self).spec_peer(info@.node_no) == Some(info@),
            forall|no: u16|
                no != info@.node_no ==> #[trigger] final(self).spec_peer(no) == old(self).spec_peer(
                    no,
                ),
    {
        let ghost no0 = info@.node_no;
        let ghost added = info@;
        let node_no = info.node_no;
        self.peers.insert(0, (node_no, info));
        proof {
            assert(self.spec_peer_list().first() == (no0, added));
            assert(self.spec_peer_list().drop_first() =~= old(self).spec_peer_list());
        }
    }

    /// The peer under a node number, if a control handshake announced one.
    pub fn get_peer(&self, node_no: u16) -> (r: Option<&NodeInfo>)
        ensures
            match r {
                Some(info) => self.spec_peer(node_no) == Some(info@),
                None => self.spec_peer(node_no) is None,
            },
    {
        let mut k: usize = 0;
        let n = self.peers.len();
        while k < n
            invariant
                k <= n,
                n == self.peers@.len(),
                forall|i: int| 0 <= i < k ==> (#[trigger] self.peers@[i]).0 != node_no,
            decreases n - k,
        {
            if self.peers[k].0 == node_no {
                proof {
                    lemma_lookup_skip(self.spec_peer_list(), node_no, k as int);
                    assert(self.spec_peer_list().skip(k as int).first() == (
                        self.peers@[k as int].0,
                        self.peers@[k as int].1@,
                    ));
                }
                return Some(&self.peers[k].1);
            }
            k = k + 1;
        }
        proof {
            lemma_lookup_skip(self.spec_peer_list(), node_no, n as int);
            assert(self.spec_peer_list().skip(n as int) =~= Seq::<(u16, NodeInfoView)>::empty());
        }
        None
    }

    /// The name of one of this node's groups, by group number.
    pub fn local_group_name(&self, group_no: u32) -> (r: Option<Vec<u8>>)
        ensures
            match r {
                Some(name) => spec_group_name(self.spec_this().groups, group_no) == Some(name@),
                None => spec_group_name(self.spec_this().groups, group_no) is None,
            },
    {
        group_name_of(&self.this.groups, group_no)
    }

    /// A borrow of this node's description.
    pub fn this_node(&self) -> (r: &NodeInfo)
        ensures
            r@ == self.spec_this(),
    {
        &self.this
    }
}

/// The name of the first group with this number, if any.
pub open spec fn spec_group_name(groups: Seq<GroupInfoView>, group_no: u32) -> Option<Seq<u8>>
    decreases groups.len(),
{
    if groups.len() == 0 {
        None
    } else if groups.first().group_no == group_no {
        Some(groups.first().name)
    } else {
        spec_group_name(groups.drop_first(), group_no)
    }
}

proof fn lemma_group_name_skip(groups: Seq<GroupInfoView>, group_no: u32, k: int)
    requires
        0 <= k <= groups.len(),
        forall|i: int| 0 <= i < k ==> (#[trigger] groups[i]).group_no != group_no,
    ensures
        spec_group_name(groups, group_no) == spec_group_name(groups.skip(k), group_no),
    decreases k,
{
    if k > 0 {
        assert(groups.drop_first() =~= groups.skip(1));
        lemma_group_name_skip(groups.skip(1), group_no, k - 1);
        assert(groups.skip(1).skip(k - 1) =~= groups.skip(k));
    } else {
        assert(groups.skip(0) =~= groups);
    }
}

/// Finds a group by number and copies its name.
pub fn group_name_of(groups: &Vec<GroupInfo>, group_no: u32) -> (r: Option<Vec<u8>>)
    ensures
        match r {
            Some(name) => spec_group_name(groups_view(groups@), group_no) == Some(name@),
            None => spec_group_name(groups_view(groups@), group_no) is None,
        },
{
    let mut k: usize = 0;
    let n = groups.len();
    while k < n
        invariant
            k <= n,
            n == groups@.len(),
            forall|i: int| 0 <= i < k ==> (#[trigger] groups_view(groups@)[i]).group_no != group_no,
        decreases n - k,
    {
        if groups[k].group_no == group_no {
            proof {
                lemma_group_name_skip(groups_view(groups@), group_no, k as int);
                assert(groups_view(groups@).skip(k as int).first() == groups_view(groups@)[k as int]);
                assert(groups_view(groups@)[k as int] == groups@[k as int]@);
            }
            return Some(clone_bytes(&groups[k].name));
        }
        proof {
            assert(groups_view(groups@)[k as int] == groups@[k as int]@);
        }
        k = k + 1;
    }
    proof {
        lemma_group_name_skip(groups_view(groups@), group_no, n as int);
        assert(groups_view(groups@).skip(n as int) =~= Seq::<GroupInfoView>::empty());
    }
    None
}

/// The interested pairs: for each group of `one` whose interests contain the
/// name of a group of `two`, the pair of their numbers, in order.
pub open spec fn spec_infer(one: Seq<GroupInfoView>, two: Seq<GroupInfoView>) -> Seq<(u32, u32)>
    decreases one.len(),
{
    if one.len() == 0 {
        Seq::<(u32, u32)>::empty()
    } else {
        spec_infer_row(one.first(), two, 0) + spec_infer(one.drop_first(), two)
    }
}

pub open spec fn spec_infer_row(o: GroupInfoView, two: Seq<GroupInfoView>, from: int) -> Seq<
    (u32, u32),
>
    decreases two.len() - from,
{
    if from < 0 || from >= two.len() {
        Seq::<(u32, u32)>::empty()
    } else {
        let rest = spec_infer_row(o, two, from + 1);
        if spec_contains_bytes(o.interests, two[from].name) {
            seq![(o.group_no, two[from].group_no)] + rest
        } else {
            rest
        }
    }
}

/// For each local group interested in a remote group's name, the pair of
/// their numbers — the data connections to open between two nodes.
pub fn infer_connections(one: &Vec<GroupInfo>, two: &Vec<GroupInfo>) -> (r: Vec<(u32, u32)>)
    ensures
        r@ == spec_infer(groups_view(one@), groups_view(two@)),
{
    let mut out: Vec<(u32, u32)> = Vec::new();
    let mut i: usize = 0;
    proof {
        lemma_infer_split(groups_view(one@), groups_view(two@), 0);
    }
    while i < one.len()
        invariant
            i <= one@.len(),
            out@ + spec_infer(groups_view(one@).skip(i as int), groups_view(two@)) == spec_infer(
                groups_view(one@),
                groups_view(two@),
            ),
        decreases one@.len() - i,
    {
        let mut j: usize = 0;
        proof {
            assert(groups_view(one@).skip(i as int).first() == groups_view(one@)[i as int]);
            assert(groups_view(one@)[i as int] == one@[i as int]@);
            lemma_infer_split(groups_view(one@), groups_view(two@), i as int);
            assert(out@ + spec_infer_row(one@[i as int]@, groups_view(two@), 0) + spec_infer(
                groups_view(one@).skip(i as int + 1),
                groups_view(two@),
            ) =~= out@ + spec_infer(groups_view(one@).skip(i as int), groups_view(two@)));
        }
        while j < two.len()
            invariant
                i < one@.len(),
                j <= two@.len(),
                out@ + spec_infer_row(one@[i as int]@, groups_view(two@), j as int) + spec_infer(
                    groups_view(one@).skip(i as int + 1),
                    groups_view(two@),
                ) == spec_infer(groups_view(one@), groups_view(two@)),
            decreases two@.len() - j,
        {
            proof {
                assert(groups_view(two@)[j as int] == two@[j as int]@);
            }
            if crate::wire::contains_bytes(&one[i].interests, &two[j].name) {
                out.push((one[i].group_no, two[j].group_no));
                proof {
                    assert(out@ + spec_infer_row(one@[i as int]@, groups_view(two@), j as int + 1)
                        + spec_infer(groups_view(one@).skip(i as int + 1), groups_view(two@))
                        =~= spec_infer(groups_view(one@), groups_view(two@)));
                }
            } else {
                proof {
                    assert(out@ + spec_infer_row(one@[i as int]@, groups_view(two@), j as int + 1)
                        + spec_infer(groups_view(one@).skip(i as int + 1), groups_view(two@))
                        =~= spec_infer(groups_view(one@), groups_view(two@)));
                }
            }
            j = j + 1;
        }
        proof {
            assert(spec_infer_row(one@[i as int]@, groups_view(two@), two@.len() as int) =~= Seq::<
                (u32, u32),
            >::empty());
            lemma_infer_split(groups_view(one@), groups_view(two@), i as int + 1);
            assert(out@ + spec_infer(groups_view(one@).skip(i as int + 1), groups_view(two@))
                =~= spec_infer(groups_view(one@), groups_view(two@)));
        }
        i = i + 1;
    }
    proof {
        assert(spec_infer(groups_view(one@).skip(one@.len() as int), groups_view(two@)) =~= Seq::<
            (u32, u32),
        >::empty());
        assert(out@ =~= spec_infer(groups_view(one@), groups_view(two@)));
    }
    out
}

/// Unrolls `spec_infer` over the first of the remaining rows.
proof fn lemma_infer_split(one: Seq<GroupInfoView>, two: Seq<GroupInfoView>, i: int)
    requires
        0 <= i <= one.len(),
    ensures
        i < one.len() ==> spec_infer(one.skip(i), two) == spec_infer_row(one[i], two, 0)
            + spec_infer(one.skip(i + 1), two),
    decreases one.len() - i,
{
    if i < one.len() {
        assert(one.skip(i).first() == one[i]);
        assert(one.skip(i).drop_first() =~= one.skip(i + 1));
    }
}

} // verus!
