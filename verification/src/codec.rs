//! The peer message codec: the handshake and liveness messages exchanged on
//! a fresh socket, their byte encoding, and the round-trip law — decoding an
//! encoded message gives the message back.

use vstd::prelude::*;

use crate::messages::{group_info_wf, groups_wf, GroupInfo, GroupInfoView};
use crate::wire::{
    dec_bytes, dec_bytes_list, dec_i32, dec_u32, dec_u64, enc_bytes, enc_bytes_list, enc_i32,
    enc_u32, enc_u64, lemma_dec_bytes, lemma_dec_bytes_list, lemma_dec_i32, lemma_dec_u32,
    lemma_dec_u64, lemma_subrange_of_subrange, spec_dec_bytes, spec_dec_bytes_list, spec_dec_i32,
    spec_dec_u32, spec_dec_u64, spec_enc_bytes, spec_enc_bytes_list, spec_enc_i32, spec_enc_u32,
    spec_enc_u64,
};

verus! {

/// The first application message on a new socket, or a liveness probe.
#[derive(Debug, PartialEq)]
pub enum WireMessage {
    /// Commit the socket to the control role, announcing our groups.
    SwitchToControl { groups: Vec<GroupInfo> },
    /// Commit the socket to a data role between two groups.
    SwitchToData { my_group_no: u32, your_group_no: u32, initial_window: i32 },
    Ping { payload: u64 },
    Pong { payload: u64 },
}

/// The mathematical content of a `WireMessage`.
pub enum WireMessageView {
    SwitchToControl { groups: Seq<GroupInfoView> },
    SwitchToData { my_group_no: u32, your_group_no: u32, initial_window: i32 },
    Ping { payload: u64 },
    Pong { payload: u64 },
}

impl View for WireMessage {
    type V = WireMessageView;

    open spec fn view(&self) -> WireMessageView {
        match self {
            WireMessage::SwitchToControl { groups } => WireMessageView::SwitchToControl {
                groups: crate::messages::groups_view(groups@),
            },
            WireMessage::SwitchToData { my_group_no, your_group_no, initial_window } => {
                WireMessageView::SwitchToData {
                    my_group_no: *my_group_no,
                    your_group_no: *your_group_no,
                    initial_window: *initial_window,
                }
            },
            WireMessage::Ping { payload } => WireMessageView::Ping { payload: *payload },
            WireMessage::Pong { payload } => WireMessageView::Pong { payload: *payload },
        }
    }
}

pub open spec fn wire_message_wf(m: WireMessageView) -> bool {
    match m {
        WireMessageView::SwitchToControl { groups } => groups_wf(groups),
        _ => true,
    }
}

// ---------------------------------------------------------------------------
// Group descriptions
// ---------------------------------------------------------------------------

pub open spec fn spec_enc_group(g: GroupInfoView) -> Seq<u8> {
    spec_enc_u32(g.group_no) + spec_enc_bytes(g.name) + spec_enc_bytes_list(g.interests)
}

pub open spec fn spec_dec_group(s: Seq<u8>, i: int) -> Option<(GroupInfoView, int)> {
    match spec_dec_u32(s, i) {
        Some((group_no, i)) => match spec_dec_bytes(s, i) {
            Some((name, i)) => match spec_dec_bytes_list(s, i) {
                Some((interests, i)) => Some((GroupInfoView { group_no, name, interests }, i)),
                None => None,
            },
            None => None,
        },
        None => None,
    }
}

pub proof fn lemma_dec_group(s: Seq<u8>, i: int, g: GroupInfoView)
    requires
        0 <= i,
        group_info_wf(g),
        i + spec_enc_group(g).len() <= s.len(),
        s.subrange(i, i + spec_enc_group(g).len()) == spec_enc_group(g),
    ensures
        spec_dec_group(s, i) == Some((g, i + spec_enc_group(g).len())),
{
    let p0 = spec_enc_u32(g.group_no);
    let p1 = spec_enc_bytes(g.name);
    let p2 = spec_enc_bytes_list(g.interests);
    let whole = spec_enc_group(g);
    let i1 = i + p0.len();
    let i2 = i1 + p1.len();
    let i3 = i2 + p2.len();
    lemma_subrange_of_subrange(s, i, i + whole.len(), 0, p0.len() as int);
    assert(s.subrange(i, i1) =~= p0);
    lemma_dec_u32(s, i, g.group_no);
    lemma_subrange_of_subrange(s, i, i + whole.len(), p0.len() as int, (p0.len() + p1.len()) as int);
    assert(s.subrange(i1, i2) =~= p1);
    lemma_dec_bytes(s, i1, g.name);
    lemma_subrange_of_subrange(
        s,
        i,
        i + whole.len(),
        (p0.len() + p1.len()) as int,
        whole.len() as int,
    );
    assert(s.subrange(i2, i3) =~= p2);
    lemma_dec_bytes_list(s, i2, g.interests);
}

pub open spec fn spec_enc_group_items(items: Seq<GroupInfoView>, from: int) -> Seq<u8>
    decreases items.len() - from,
{
    if from < 0 || from >= items.len() {
        Seq::<u8>::empty()
    } else {
        spec_enc_group(items[from]) + spec_enc_group_items(items, from + 1)
    }
}

pub open spec fn spec_dec_group_items(s: Seq<u8>, i: int, n: nat) -> Option<
    (Seq<GroupInfoView>, int),
>
    decreases n,
{
    if n == 0 {
        Some((Seq::<GroupInfoView>::empty(), i))
    } else {
        match spec_dec_group(s, i) {
            Some((g, j)) => match spec_dec_group_items(s, j, (n - 1) as nat) {
                Some((rest, k)) => Some((seq![g] + rest, k)),
                None => None,
            },
            None => None,
        }
    }
}

pub open spec fn spec_enc_groups(items: Seq<GroupInfoView>) -> Seq<u8> {
    spec_enc_u32(items.len() as u32) + spec_enc_group_items(items, 0)
}

pub open spec fn spec_dec_groups(s: Seq<u8>, i: int) -> Option<(Seq<GroupInfoView>, int)> {
    match spec_dec_u32(s, i) {
        Some((n, j)) => spec_dec_group_items(s, j, n as nat),
        None => None,
    }
}

pub proof fn lemma_dec_group_items(s: Seq<u8>, i: int, items: Seq<GroupInfoView>, from: int)
    requires
        0 <= i,
        0 <= from <= items.len(),
        groups_wf(items),
        i + spec_enc_group_items(items, from).len() <= s.len(),
        s.subrange(i, i + spec_enc_group_items(items, from).len()) == spec_enc_group_items(
            items,
            from,
        ),
    ensures
        spec_dec_group_items(s, i, (items.len() - from) as nat) == Some(
            (
                items.subrange(from, items.len() as int),
                i + spec_enc_group_items(items, from).len(),
            ),
        ),
    decreases items.len() - from,
{
    if from == items.len() {
        assert(items.subrange(from, items.len() as int) =~= Seq::<GroupInfoView>::empty());
    } else {
        let head = items[from];
        let head_len = spec_enc_group(head).len() as int;
        let whole = spec_enc_group_items(items, from);
        let rest = spec_enc_group_items(items, from + 1);
        assert(whole == spec_enc_group(head) + rest);
        lemma_subrange_of_subrange(s, i, i + whole.len(), 0, head_len);
        assert(s.subrange(i, i + head_len) =~= spec_enc_group(head));
        lemma_dec_group(s, i, head);
        lemma_subrange_of_subrange(s, i, i + whole.len(), head_len, whole.len() as int);
        assert(s.subrange(i + head_len, i + head_len + rest.len()) =~= rest);
        lemma_dec_group_items(s, i + head_len, items, from + 1);
        assert(seq![head] + items.subrange(from + 1, items.len() as int) =~= items.subrange(
            from,
            items.len() as int,
        ));
    }
}

pub proof fn lemma_dec_groups(s: Seq<u8>, i: int, items: Seq<GroupInfoView>)
    requires
        0 <= i,
        groups_wf(items),
        i + spec_enc_groups(items).len() <= s.len(),
        s.subrange(i, i + spec_enc_groups(items).len()) == spec_enc_groups(items),
    ensures
        spec_dec_groups(s, i) == Some((items, i + spec_enc_groups(items).len())),
{
    let body = spec_enc_group_items(items, 0);
    let whole = spec_enc_groups(items);
    lemma_subrange_of_subrange(s, i, i + whole.len(), 0, 4);
    assert(s.subrange(i, i + 4) =~= spec_enc_u32(items.len() as u32));
    lemma_dec_u32(s, i, items.len() as u32);
    lemma_subrange_of_subrange(s, i, i + whole.len(), 4, whole.len() as int);
    assert(s.subrange(i + 4, i + 4 + body.len()) =~= body);
    lemma_dec_group_items(s, i + 4, items, 0);
    assert(items.subrange(0, items.len() as int) =~= items);
}

// ---------------------------------------------------------------------------
// Messages
// ---------------------------------------------------------------------------

pub open spec fn spec_dec_tag(s: Seq<u8>, i: int) -> Option<(u8, int)> {
    if 0 <= i < s.len() {
        Some((s[i], i + 1))
    } else {
        None
    }
}

pub open spec fn spec_enc_message(m: WireMessageView) -> Seq<u8> {
    match m {
        WireMessageView::SwitchToControl { groups } => seq![1u8] + spec_enc_groups(groups),
        WireMessageView::SwitchToData { my_group_no, your_group_no, initial_window } => seq![2u8]
            + spec_enc_u32(my_group_no) + spec_enc_u32(your_group_no) + spec_enc_i32(
            initial_window,
        ),
        WireMessageView::Ping { payload } => seq![3u8] + spec_enc_u64(payload),
        WireMessageView::Pong { payload } => seq![4u8] + spec_enc_u64(payload),
    }
}

/// Parses one message at `i`; unknown tags are rejected.
pub open spec fn spec_dec_message_at(s: Seq<u8>, i: int) -> Option<(WireMessageView, int)> {
    match spec_dec_tag(s, i) {
        Some((tag, i)) => if tag == 1 {
            match spec_dec_groups(s, i) {
                Some((groups, i)) => Some((WireMessageView::SwitchToControl { groups }, i)),
                None => None,
            }
        } else if tag == 2 {
            match spec_dec_u32(s, i) {
                Some((my_group_no, i)) => match spec_dec_u32(s, i) {
                    Some((your_group_no, i)) => match spec_dec_i32(s, i) {
                        Some((initial_window, i)) => Some(
                            (
                                WireMessageView::SwitchToData {
                                    my_group_no,
                                    your_group_no,
                                    initial_window,
                                },
                                i,
                            ),
                        ),
                        None => None,
                    },
                    None => None,
                },
                None => None,
            }
        } else if tag == 3 {
            match spec_dec_u64(s, i) {
                Some((payload, i)) => Some((WireMessageView::Ping { payload }, i)),
                None => None,
            }
        } else if tag == 4 {
            match spec_dec_u64(s, i) {
                Some((payload, i)) => Some((WireMessageView::Pong { payload }, i)),
                None => None,
            }
        } else {
            None
        },
        None => None,
    }
}

/// Parses a whole buffer as one message.
pub open spec fn spec_dec_message(s: Seq<u8>) -> Option<WireMessageView> {
    match spec_dec_message_at(s, 0) {
        Some((m, i)) => if i == s.len() {
            Some(m)
        } else {
            None
        },
        None => None,
    }
}

/// Parsing an encoded message embedded at `i` recovers the message.
pub proof fn lemma_dec_message_at(s: Seq<u8>, i: int, m: WireMessageView)
    requires
        0 <= i,
        wire_message_wf(m),
        i + spec_enc_message(m).len() <= s.len(),
        s.subrange(i, i + spec_enc_message(m).len()) == spec_enc_message(m),
    ensures
        spec_dec_message_at(s, i) == Some((m, i + spec_enc_message(m).len())),
{
    let whole = spec_enc_message(m);
    assert(s[i] == s.subrange(i, i + whole.len())[0]);
    match m {
        WireMessageView::SwitchToControl { groups } => {
            lemma_subrange_of_subrange(s, i, i + whole.len(), 1, whole.len() as int);
            assert(s.subrange(i + 1, i + whole.len()) =~= spec_enc_groups(groups));
            lemma_dec_groups(s, i + 1, groups);
        },
        WireMessageView::SwitchToData { my_group_no, your_group_no, initial_window } => {
            lemma_subrange_of_subrange(s, i, i + whole.len(), 1, 5);
            assert(s.subrange(i + 1, i + 5) =~= spec_enc_u32(my_group_no));
            lemma_dec_u32(s, i + 1, my_group_no);
            lemma_subrange_of_subrange(s, i, i + whole.len(), 5, 9);
            assert(s.subrange(i + 5, i + 9) =~= spec_enc_u32(your_group_no));
            lemma_dec_u32(s, i + 5, your_group_no);
            lemma_subrange_of_subrange(s, i, i + whole.len(), 9, 13);
            assert(s.subrange(i + 9, i + 13) =~= spec_enc_i32(initial_window));
            lemma_dec_i32(s, i + 9, initial_window);
        },
        WireMessageView::Ping { payload } => {
            lemma_subrange_of_subrange(s, i, i + whole.len(), 1, 9);
            assert(s.subrange(i + 1, i + 9) =~= spec_enc_u64(payload));
            lemma_dec_u64(s, i + 1, payload);
        },
        WireMessageView::Pong { payload } => {
            lemma_subrange_of_subrange(s, i, i + whole.len(), 1, 9);
            assert(s.subrange(i + 1, i + 9) =~= spec_enc_u64(payload));
            lemma_dec_u64(s, i + 1, payload);
        },
    }
}

/// Encode/decode of every peer protocol message is identity.
pub proof fn lemma_message_round_trip(m: WireMessageView)
    requires
        wire_message_wf(m),
    ensures
        spec_dec_message(spec_enc_message(m)) == Some(m),
{
    let s = spec_enc_message(m);
    assert(s.subrange(0, s.len() as int) =~= s);
    lemma_dec_message_at(s, 0, m);
}

// ---------------------------------------------------------------------------
// Executable encoder and decoder
// ---------------------------------------------------------------------------

fn enc_group(out: &mut Vec<u8>, g: &GroupInfo)
    requires
        group_info_wf(g@),
    ensures
        final(out)@ == old(out)@ + spec_enc_group(g@),
{
    enc_u32(out, g.group_no);
    enc_bytes(out, &g.name);
    enc_bytes_list(out, &g.interests);
    proof {
        assert(out@ =~= old(out)@ + spec_enc_group(g@));
    }
}

fn enc_group_items(out: &mut Vec<u8>, items: &Vec<GroupInfo>, from: usize)
    requires
        from <= items@.len(),
        groups_wf(crate::messages::groups_view(items@)),
    ensures
        final(out)@ == old(out)@ + spec_enc_group_items(
            crate::messages::groups_view(items@),
            from as int,
        ),
    decreases items@.len() - from,
{
    if from < items.len() {
        proof {
            assert(crate::messages::groups_view(items@)[from as int] == items@[from as int]@);
        }
        enc_group(out, &items[from]);
        enc_group_items(out, items, from + 1);
        proof {
            assert(out@ =~= old(out)@ + spec_enc_group_items(
                crate::messages::groups_view(items@),
                from as int,
            ));
        }
    }
}

/// Encodes one peer message.
pub fn encode_message(m: &WireMessage) -> (r: Vec<u8>)
    requires
        wire_message_wf(m@),
    ensures
        r@ == spec_enc_message(m@),
{
    let mut out: Vec<u8> = Vec::new();
    match m {
        WireMessage::SwitchToControl { groups } => {
            out.push(1u8);
            enc_u32(&mut out, groups.len() as u32);
            enc_group_items(&mut out, groups, 0);
        },
        WireMessage::SwitchToData { my_group_no, your_group_no, initial_window } => {
            out.push(2u8);
            enc_u32(&mut out, *my_group_no);
            enc_u32(&mut out, *your_group_no);
            enc_i32(&mut out, *initial_window);
        },
        WireMessage::Ping { payload } => {
            out.push(3u8);
            enc_u64(&mut out, *payload);
        },
        WireMessage::Pong { payload } => {
            out.push(4u8);
            enc_u64(&mut out, *payload);
        },
    }
    proof {
        assert(out@ =~= spec_enc_message(m@));
    }
    out
}

fn dec_group(s: &Vec<u8>, i: usize) -> (r: Option<(GroupInfo, usize)>)
    ensures
        match r {
            Some((g, j)) => spec_dec_group(s@, i as int) == Some((g@, j as int)),
            None => spec_dec_group(s@, i as int) is None,
        },
{
    let (group_no, i) = match dec_u32(s, i) {
        Some(x) => x,
        None => {
            return None;
        },
    };
    let (name, i) = match dec_bytes(s, i) {
        Some(x) => x,
        None => {
            return None;
        },
    };
    let (interests, i) = match dec_bytes_list(s, i) {
        Some(x) => x,
        None => {
            return None;
        },
    };
    Some((GroupInfo { group_no, name, interests }, i))
}

fn dec_group_items(s: &Vec<u8>, i: usize, n: u32) -> (r: Option<(Vec<GroupInfo>, usize)>)
    ensures
        match r {
            Some((items, j)) => spec_dec_group_items(s@, i as int, n as nat) == Some(
                (crate::messages::groups_view(items@), j as int),
            ),
            None => spec_dec_group_items(s@, i as int, n as nat) is None,
        },
    decreases n,
{
    if n == 0 {
        proof {
            assert(crate::messages::groups_view(Seq::<GroupInfo>::empty()) =~= Seq::<
                GroupInfoView,
            >::empty());
        }
        Some((Vec::new(), i))
    } else {
        match dec_group(s, i) {
            Some((g, j)) => match dec_group_items(s, j, n - 1) {
                Some((mut rest, k)) => {
                    rest.insert(0, g);
                    proof {
                        assert(crate::messages::groups_view(rest@) =~= seq![rest@[0]@]
                            + crate::messages::groups_view(rest@.subrange(1, rest@.len() as int)));
                    }
                    Some((rest, k))
                },
                None => None,
            },
            None => None,
        }
    }
}

/// Decodes a whole buffer as one peer message; the exact inverse of
/// `encode_message` on every buffer.
pub fn decode_message(s: &Vec<u8>) -> (r: Option<WireMessage>)
    ensures
        match r {
            Some(m) => spec_dec_message(s@) == Some(m@),
            None => spec_dec_message(s@) is None,
        },
{
    if s.len() == 0 {
        return None;
    }
    let tag = s[0];
    let parsed: Option<(WireMessage, usize)> = if tag == 1 {
        match dec_u32(s, 1) {
            Some((n, i)) => match dec_group_items(s, i, n) {
                Some((groups, i)) => Some((WireMessage::SwitchToControl { groups }, i)),
                None => None,
            },
            None => None,
        }
    } else if tag == 2 {
        match dec_u32(s, 1) {
            Some((my_group_no, i)) => match dec_u32(s, i) {
                Some((your_group_no, i)) => match dec_i32(s, i) {
                    Some((initial_window, i)) => Some(
                        (
                            WireMessage::SwitchToData {
                                my_group_no,
                                your_group_no,
                                initial_window,
                            },
                            i,
                        ),
                    ),
                    None => None,
                },
                None => None,
            },
            None => None,
        }
    } else if tag == 3 {
        match dec_u64(s, 1) {
            Some((payload, i)) => Some((WireMessage::Ping { payload }, i)),
            None => None,
        }
    } else if tag == 4 {
        match dec_u64(s, 1) {
            Some((payload, i)) => Some((WireMessage::Pong { payload }, i)),
            None => None,
        }
    } else {
        None
    };
    match parsed {
        Some((m, i)) => {
            if i == s.len() {
                Some(m)
            } else {
                None
            }
        },
        None => None,
    }
}

} // verus!
