//! Little-endian byte-level primitives shared by the peer message codec and
//! the configuration blob decoder: fixed-width integers and length-prefixed
//! byte strings, each with a specification-level encoder and parser and a
//! round-trip lemma.

use vstd::prelude::*;

verus! {

/// A window of a window of `s` is the inner window of `s` itself.
pub proof fn lemma_subrange_of_subrange(s: Seq<u8>, i: int, j: int, a: int, c: int)
    requires
        0 <= i <= j <= s.len(),
        0 <= a <= c <= j - i,
    ensures
        s.subrange(i + a, i + c) == s.subrange(i, j).subrange(a, c),
{
    assert(s.subrange(i + a, i + c) =~= s.subrange(i, j).subrange(a, c));
}

// ---------------------------------------------------------------------------
// u32
// ---------------------------------------------------------------------------

pub open spec fn spec_enc_u32(v: u32) -> Seq<u8> {
    seq![
        (v & 0xff) as u8,
        ((v >> 8) & 0xff) as u8,
        ((v >> 16) & 0xff) as u8,
        ((v >> 24) & 0xff) as u8,
    ]
}

pub open spec fn spec_u32_of(b0: u8, b1: u8, b2: u8, b3: u8) -> u32 {
    (b0 as u32) | ((b1 as u32) << 8) | ((b2 as u32) << 16) | ((b3 as u32) << 24)
}

/// Parses four bytes at `i`; yields the value and the next position.
pub open spec fn spec_dec_u32(s: Seq<u8>, i: int) -> Option<(u32, int)> {
    if 0 <= i && i + 4 <= s.len() {
        Some((spec_u32_of(s[i], s[i + 1], s[i + 2], s[i + 3]), i + 4))
    } else {
        None
    }
}

pub proof fn lemma_u32_round(v: u32)
    ensures
        spec_u32_of(
            (v & 0xff) as u8,
            ((v >> 8) & 0xff) as u8,
            ((v >> 16) & 0xff) as u8,
            ((v >> 24) & 0xff) as u8,
        ) == v,
{
    assert(((v & 0xff) as u8 as u32) | ((((v >> 8) & 0xff) as u8 as u32) << 8) | ((((v >> 16)
        & 0xff) as u8 as u32) << 16) | ((((v >> 24) & 0xff) as u8 as u32) << 24) == v)
        by (bit_vector);
}

/// Parsing an encoded u32 embedded at `i` recovers the value.
pub proof fn lemma_dec_u32(s: Seq<u8>, i: int, v: u32)
    requires
        0 <= i,
        i + 4 <= s.len(),
        s.subrange(i, i + 4) == spec_enc_u32(v),
    ensures
        spec_dec_u32(s, i) == Some((v, i + 4)),
{
    let e = spec_enc_u32(v);
    assert(s[i] == s.subrange(i, i + 4)[0]);
    assert(s[i + 1] == s.subrange(i, i + 4)[1]);
    assert(s[i + 2] == s.subrange(i, i + 4)[2]);
    assert(s[i + 3] == s.subrange(i, i + 4)[3]);
    lemma_u32_round(v);
}

pub fn enc_u32(out: &mut Vec<u8>, v: u32)
    ensures
        final(out)@ == old(out)@ + spec_enc_u32(v),
{
    out.push((v & 0xff) as u8);
    out.push(((v >> 8) & 0xff) as u8);
    out.push(((v >> 16) & 0xff) as u8);
    out.push(((v >> 24) & 0xff) as u8);
    proof {
        assert(out@ =~= old(out)@ + spec_enc_u32(v));
    }
}

pub fn dec_u32(s: &Vec<u8>, i: usize) -> (r: Option<(u32, usize)>)
    ensures
        match r {
            Some((v, j)) => spec_dec_u32(s@, i as int) == Some((v, j as int)),
            None => spec_dec_u32(s@, i as int) is None,
        },
{
    if s.len() >= 4 && i <= s.len() - 4 {
        let v = spec_u32_of_exec(s[i], s[i + 1], s[i + 2], s[i + 3]);
        Some((v, i + 4))
    } else {
        None
    }
}

fn spec_u32_of_exec(b0: u8, b1: u8, b2: u8, b3: u8) -> (v: u32)
    ensures
        v == spec_u32_of(b0, b1, b2, b3),
{
    (b0 as u32) | ((b1 as u32) << 8) | ((b2 as u32) << 16) | ((b3 as u32) << 24)
}

// ---------------------------------------------------------------------------
// u64
// ---------------------------------------------------------------------------

pub open spec fn spec_enc_u64(v: u64) -> Seq<u8> {
    spec_enc_u32((v & 0xFFFF_FFFF) as u32) + spec_enc_u32((v >> 32) as u32)
}

pub open spec fn spec_u64_of(lo: u32, hi: u32) -> u64 {
    (lo as u64) | ((hi as u64) << 32)
}

pub open spec fn spec_dec_u64(s: Seq<u8>, i: int) -> Option<(u64, int)> {
    match spec_dec_u32(s, i) {
        Some((lo, j)) => match spec_dec_u32(s, j) {
            Some((hi, k)) => Some((spec_u64_of(lo, hi), k)),
            None => None,
        },
        None => None,
    }
}

pub proof fn lemma_u64_round(v: u64)
    ensures
        spec_u64_of((v & 0xFFFF_FFFF) as u32, (v >> 32) as u32) == v,
{
    assert((((v & 0xFFFF_FFFF) as u32) as u64) | ((((v >> 32) as u32) as u64) << 32) == v)
        by (bit_vector);
}

pub proof fn lemma_dec_u64(s: Seq<u8>, i: int, v: u64)
    requires
        0 <= i,
        i + 8 <= s.len(),
        s.subrange(i, i + 8) == spec_enc_u64(v),
    ensures
        spec_dec_u64(s, i) == Some((v, i + 8)),
{
    let lo = (v & 0xFFFF_FFFF) as u32;
    let hi = (v >> 32) as u32;
    lemma_subrange_of_subrange(s, i, i + 8, 0, 4);
    lemma_subrange_of_subrange(s, i, i + 8, 4, 8);
    assert(s.subrange(i, i + 4) =~= spec_enc_u32(lo));
    assert(s.subrange(i + 4, i + 8) =~= spec_enc_u32(hi));
    lemma_dec_u32(s, i, lo);
    lemma_dec_u32(s, i + 4, hi);
    lemma_u64_round(v);
}

pub fn enc_u64(out: &mut Vec<u8>, v: u64)
    ensures
        final(out)@ == old(out)@ + spec_enc_u64(v),
{
    enc_u32(out, (v & 0xFFFF_FFFF) as u32);
    enc_u32(out, (v >> 32) as u32);
    proof {
        assert(out@ =~= old(out)@ + spec_enc_u64(v));
    }
}

pub fn dec_u64(s: &Vec<u8>, i: usize) -> (r: Option<(u64, usize)>)
    ensures
        match r {
            Some((v, j)) => spec_dec_u64(s@, i as int) == Some((v, j as int)),
            None => spec_dec_u64(s@, i as int) is None,
        },
{
    match dec_u32(s, i) {
        Some((lo, j)) => match dec_u32(s, j) {
            Some((hi, k)) => Some(((lo as u64) | ((hi as u64) << 32), k)),
            None => None,
        },
        None => None,
    }
}

// ---------------------------------------------------------------------------
// i32 (stored as its u32 bit pattern)
// ---------------------------------------------------------------------------

pub open spec fn spec_enc_i32(v: i32) -> Seq<u8> {
    spec_enc_u32(v as u32)
}

pub open spec fn spec_dec_i32(s: Seq<u8>, i: int) -> Option<(i32, int)> {
    match spec_dec_u32(s, i) {
        Some((v, j)) => Some((v as i32, j)),
        None => None,
    }
}

pub proof fn lemma_i32_round(v: i32)
    ensures
        (v as u32) as i32 == v,
{
    assert((v as u32) as i32 == v) by (bit_vector);
}

pub proof fn lemma_dec_i32(s: Seq<u8>, i: int, v: i32)
    requires
        0 <= i,
        i + 4 <= s.len(),
        s.subrange(i, i + 4) == spec_enc_i32(v),
    ensures
        spec_dec_i32(s, i) == Some((v, i + 4)),
{
    lemma_dec_u32(s, i, v as u32);
    lemma_i32_round(v);
}

pub fn enc_i32(out: &mut Vec<u8>, v: i32)
    ensures
        final(out)@ == old(out)@ + spec_enc_i32(v),
{
    enc_u32(out, v as u32);
}

pub fn dec_i32(s: &Vec<u8>, i: usize) -> (r: Option<(i32, usize)>)
    ensures
        match r {
            Some((v, j)) => spec_dec_i32(s@, i as int) == Some((v, j as int)),
            None => spec_dec_i32(s@, i as int) is None,
        },
{
    match dec_u32(s, i) {
        Some((v, j)) => Some((v as i32, j)),
        None => None,
    }
}

// ---------------------------------------------------------------------------
// bool (one byte, 0 or 1; other bytes are rejected)
// ---------------------------------------------------------------------------

pub open spec fn spec_enc_bool(v: bool) -> Seq<u8> {
    seq![if v { 1u8 } else { 0u8 }]
}

pub open spec fn spec_dec_bool(s: Seq<u8>, i: int) -> Option<(bool, int)> {
    if 0 <= i < s.len() {
        if s[i] == 0 {
            Some((false, i + 1))
        } else if s[i] == 1 {
            Some((true, i + 1))
        } else {
            None
        }
    } else {
        None
    }
}

pub proof fn lemma_dec_bool(s: Seq<u8>, i: int, v: bool)
    requires
        0 <= i,
        i + 1 <= s.len(),
        s.subrange(i, i + 1) == spec_enc_bool(v),
    ensures
        spec_dec_bool(s, i) == Some((v, i + 1)),
{
    assert(s[i] == s.subrange(i, i + 1)[0]);
}

pub fn enc_bool(out: &mut Vec<u8>, v: bool)
    ensures
        final(out)@ == old(out)@ + spec_enc_bool(v),
{
    out.push(if v { 1u8 } else { 0u8 });
    proof {
        assert(out@ =~= old(out)@ + spec_enc_bool(v));
    }
}

pub fn dec_bool(s: &Vec<u8>, i: usize) -> (r: Option<(bool, usize)>)
    ensures
        match r {
            Some((v, j)) => spec_dec_bool(s@, i as int) == Some((v, j as int)),
            None => spec_dec_bool(s@, i as int) is None,
        },
{
    if i < s.len() {
        if s[i] == 0 {
            Some((false, i + 1))
        } else if s[i] == 1 {
            Some((true, i + 1))
        } else {
            None
        }
    } else {
        None
    }
}

// ---------------------------------------------------------------------------
// Length-prefixed byte strings
// ---------------------------------------------------------------------------

/// A byte string short enough for its u32 length prefix.
pub open spec fn bytes_wf(b: Seq<u8>) -> bool {
    b.len() <= u32::MAX
}

pub open spec fn spec_enc_bytes(b: Seq<u8>) -> Seq<u8> {
    spec_enc_u32(b.len() as u32) + b
}

pub open spec fn spec_dec_bytes(s: Seq<u8>, i: int) -> Option<(Seq<u8>, int)> {
    match spec_dec_u32(s, i) {
        Some((n, j)) => if j + n <= s.len() {
            Some((s.subrange(j, j + n), j + n))
        } else {
            None
        },
        None => None,
    }
}

pub proof fn lemma_dec_bytes(s: Seq<u8>, i: int, b: Seq<u8>)
    requires
        0 <= i,
        bytes_wf(b),
        i + 4 + b.len() <= s.len(),
        s.subrange(i, i + 4 + b.len()) == spec_enc_bytes(b),
    ensures
        spec_dec_bytes(s, i) == Some((b, i + 4 + b.len())),
{
    let end = i + 4 + b.len() as int;
    lemma_subrange_of_subrange(s, i, end, 0, 4);
    assert(s.subrange(i, i + 4) =~= spec_enc_u32(b.len() as u32));
    lemma_dec_u32(s, i, b.len() as u32);
    lemma_subrange_of_subrange(s, i, end, 4, 4 + b.len() as int);
    assert(s.subrange(i + 4, end) =~= b);
}

pub fn enc_bytes(out: &mut Vec<u8>, b: &Vec<u8>)
    requires
        bytes_wf(b@),
    ensures
        final(out)@ == old(out)@ + spec_enc_bytes(b@),
{
    enc_u32(out, b.len() as u32);
    let mut k: usize = 0;
    while k < b.len()
        invariant
            k <= b@.len(),
            out@ == old(out)@ + spec_enc_u32(b@.len() as u32) + b@.subrange(0, k as int),
        decreases b@.len() - k,
    {
        out.push(b[k]);
        proof {
            assert(out@ =~= old(out)@ + spec_enc_u32(b@.len() as u32) + b@.subrange(
                0,
                k as int + 1,
            ));
        }
        k = k + 1;
    }
    proof {
        assert(b@.subrange(0, b@.len() as int) =~= b@);
        assert(out@ =~= old(out)@ + spec_enc_bytes(b@));
    }
}

pub fn dec_bytes(s: &Vec<u8>, i: usize) -> (r: Option<(Vec<u8>, usize)>)
    ensures
        match r {
            Some((b, j)) => spec_dec_bytes(s@, i as int) == Some((b@, j as int)),
            None => spec_dec_bytes(s@, i as int) is None,
        },
{
    match dec_u32(s, i) {
        Some((n, j)) => {
            let n = n as usize;
            if n <= s.len() && j <= s.len() - n {
                let mut b: Vec<u8> = Vec::new();
                let mut k: usize = 0;
                proof {
                    assert(s@.len() <= usize::MAX);
                }
                while k < n
                    invariant
                        k <= n,
                        j + n <= s@.len(),
                        s@.len() <= usize::MAX,
                        b@ == s@.subrange(j as int, j as int + k as int),
                    decreases n - k,
                {
                    b.push(s[j + k]);
                    proof {
                        assert(b@ =~= s@.subrange(j as int, j as int + k as int + 1));
                    }
                    k = k + 1;
                }
                Some((b, j + n))
            } else {
                None
            }
        },
        None => None,
    }
}

// ---------------------------------------------------------------------------
// Lists of byte strings
// ---------------------------------------------------------------------------

pub open spec fn bytes_list_wf(items: Seq<Seq<u8>>) -> bool {
    &&& items.len() <= u32::MAX
    &&& forall|k: int| 0 <= k < items.len() ==> bytes_wf(#[trigger] items[k])
}

/// Encodes the items from position `from` on (the count prefix stands apart).
pub open spec fn spec_enc_bytes_items(items: Seq<Seq<u8>>, from: int) -> Seq<u8>
    decreases items.len() - from,
{
    if from < 0 || from >= items.len() {
        Seq::<u8>::empty()
    } else {
        spec_enc_bytes(items[from]) + spec_enc_bytes_items(items, from + 1)
    }
}

pub open spec fn spec_enc_bytes_list(items: Seq<Seq<u8>>) -> Seq<u8> {
    spec_enc_u32(items.len() as u32) + spec_enc_bytes_items(items, 0)
}

pub open spec fn spec_dec_bytes_items(s: Seq<u8>, i: int, n: nat) -> Option<(Seq<Seq<u8>>, int)>
    decreases n,
{
    if n == 0 {
        Some((Seq::<Seq<u8>>::empty(), i))
    } else {
        match spec_dec_bytes(s, i) {
            Some((b, j)) => match spec_dec_bytes_items(s, j, (n - 1) as nat) {
                Some((rest, k)) => Some((seq![b] + rest, k)),
                None => None,
            },
            None => None,
        }
    }
}

pub open spec fn spec_dec_bytes_list(s: Seq<u8>, i: int) -> Option<(Seq<Seq<u8>>, int)> {
    match spec_dec_u32(s, i) {
        Some((n, j)) => spec_dec_bytes_items(s, j, n as nat),
        None => None,
    }
}

pub fn enc_bytes_items(out: &mut Vec<u8>, items: &Vec<Vec<u8>>, from: usize)
    requires
        from <= items@.len(),
        bytes_list_wf(bytes_list_view(items@)),
    ensures
        final(out)@ == old(out)@ + spec_enc_bytes_items(bytes_list_view(items@), from as int),
    decreases items@.len() - from,
{
    if from < items.len() {
        proof {
            assert(bytes_list_view(items@)[from as int] == items@[from as int]@);
        }
        enc_bytes(out, &items[from]);
        enc_bytes_items(out, items, from + 1);
        proof {
            assert(out@ =~= old(out)@ + spec_enc_bytes_items(
                bytes_list_view(items@),
                from as int,
            ));
        }
    }
}

pub fn enc_bytes_list(out: &mut Vec<u8>, items: &Vec<Vec<u8>>)
    requires
        bytes_list_wf(bytes_list_view(items@)),
    ensures
        final(out)@ == old(out)@ + spec_enc_bytes_list(bytes_list_view(items@)),
{
    enc_u32(out, items.len() as u32);
    enc_bytes_items(out, items, 0);
    proof {
        assert(out@ =~= old(out)@ + spec_enc_bytes_list(bytes_list_view(items@)));
    }
}

pub fn dec_bytes_items(s: &Vec<u8>, i: usize, n: u32) -> (r: Option<(Vec<Vec<u8>>, usize)>)
    ensures
        match r {
            Some((items, j)) => spec_dec_bytes_items(s@, i as int, n as nat) == Some(
                (bytes_list_view(items@), j as int),
            ),
            None => spec_dec_bytes_items(s@, i as int, n as nat) is None,
        },
    decreases n,
{
    if n == 0 {
        proof {
            assert(bytes_list_view(Seq::<Vec<u8>>::empty()) =~= Seq::<Seq<u8>>::empty());
        }
        Some((Vec::new(), i))
    } else {
        match dec_bytes(s, i) {
            Some((b, j)) => match dec_bytes_items(s, j, n - 1) {
                Some((mut rest, k)) => {
                    rest.insert(0, b);
                    proof {
                        assert(bytes_list_view(rest@) =~= seq![rest@[0]@] + bytes_list_view(
                            rest@.subrange(1, rest@.len() as int),
                        ));
                    }
                    Some((rest, k))
                },
                None => None,
            },
            None => None,
        }
    }
}

pub fn dec_bytes_list(s: &Vec<u8>, i: usize) -> (r: Option<(Vec<Vec<u8>>, usize)>)
    ensures
        match r {
            Some((items, j)) => spec_dec_bytes_list(s@, i as int) == Some(
                (bytes_list_view(items@), j as int),
            ),
            None => spec_dec_bytes_list(s@, i as int) is None,
        },
{
    match dec_u32(s, i) {
        Some((n, j)) => dec_bytes_items(s, j, n),
        None => None,
    }
}

pub proof fn lemma_dec_bytes_items(s: Seq<u8>, i: int, items: Seq<Seq<u8>>, from: int)
    requires
        0 <= i,
        0 <= from <= items.len(),
        bytes_list_wf(items),
        i + spec_enc_bytes_items(items, from).len() <= s.len(),
        s.subrange(i, i + spec_enc_bytes_items(items, from).len()) == spec_enc_bytes_items(
            items,
            from,
        ),
    ensures
        spec_dec_bytes_items(s, i, (items.len() - from) as nat) == Some(
            (items.subrange(from, items.len() as int), i + spec_enc_bytes_items(items, from).len()),
        ),
    decreases items.len() - from,
{
    if from == items.len() {
        assert(items.subrange(from, items.len() as int) =~= Seq::<Seq<u8>>::empty());
    } else {
        let head = items[from];
        let head_len = 4 + head.len() as int;
        let whole = spec_enc_bytes_items(items, from);
        let rest = spec_enc_bytes_items(items, from + 1);
        assert(whole == spec_enc_bytes(head) + rest);
        lemma_subrange_of_subrange(s, i, i + whole.len(), 0, head_len);
        assert(s.subrange(i, i + head_len) =~= spec_enc_bytes(head));
        lemma_dec_bytes(s, i, head);
        lemma_subrange_of_subrange(s, i, i + whole.len(), head_len, whole.len() as int);
        assert(s.subrange(i + head_len, i + head_len + rest.len()) =~= rest);
        lemma_dec_bytes_items(s, i + head_len, items, from + 1);
        assert(seq![head] + items.subrange(from + 1, items.len() as int) =~= items.subrange(
            from,
            items.len() as int,
        ));
    }
}

// ---------------------------------------------------------------------------
// Plain byte-string helpers
// ---------------------------------------------------------------------------

/// Copies a byte string; unlike a derived clone, the contract pins the result.
pub fn clone_bytes(v: &Vec<u8>) -> (r: Vec<u8>)
    ensures
        r@ == v@,
{
    let mut r: Vec<u8> = Vec::new();
    let mut k: usize = 0;
    while k < v.len()
        invariant
            k <= v@.len(),
            r@ == v@.subrange(0, k as int),
        decreases v@.len() - k,
    {
        r.push(v[k]);
        proof {
            assert(r@ =~= v@.subrange(0, k as int + 1));
        }
        k = k + 1;
    }
    proof {
        assert(r@ =~= v@);
    }
    r
}

/// The deep view of a list of byte strings.
pub open spec fn bytes_list_view(v: Seq<Vec<u8>>) -> Seq<Seq<u8>> {
    v.map_values(|b: Vec<u8>| b@)
}

/// Copies a list of byte strings, element for element.
pub fn clone_bytes_list(v: &Vec<Vec<u8>>) -> (r: Vec<Vec<u8>>)
    ensures
        bytes_list_view(r@) == bytes_list_view(v@),
{
    let mut r: Vec<Vec<u8>> = Vec::new();
    let mut k: usize = 0;
    while k < v.len()
        invariant
            k <= v@.len(),
            r@.len() == k,
            forall|j: int| 0 <= j < k ==> #[trigger] r@[j]@ == v@[j]@,
        decreases v@.len() - k,
    {
        r.push(clone_bytes(&v[k]));
        k = k + 1;
    }
    proof {
        assert(bytes_list_view(r@) =~= bytes_list_view(v@));
    }
    r
}

/// Byte-string equality with an exact contract.
pub fn bytes_eq(a: &Vec<u8>, b: &Vec<u8>) -> (r: bool)
    ensures
        r == (a@ == b@),
{
    if a.len() != b.len() {
        proof {
            assert(a@ != b@);
        }
        return false;
    }
    let mut k: usize = 0;
    while k < a.len()
        invariant
            k <= a@.len(),
            a@.len() == b@.len(),
            forall|j: int| 0 <= j < k ==> a@[j] == b@[j],
        decreases a@.len() - k,
    {
        if a[k] != b[k] {
            proof {
                assert(a@[k as int] != b@[k as int]);
            }
            return false;
        }
        k = k + 1;
    }
    proof {
        assert(a@ =~= b@);
    }
    true
}

/// Whether `x` occurs in a list of byte strings.
pub open spec fn spec_contains_bytes(s: Seq<Seq<u8>>, x: Seq<u8>) -> bool {
    exists|k: int| 0 <= k < s.len() && s[k] == x
}

pub fn contains_bytes(list: &Vec<Vec<u8>>, x: &Vec<u8>) -> (r: bool)
    ensures
        r == spec_contains_bytes(bytes_list_view(list@), x@),
{
    let mut k: usize = 0;
    while k < list.len()
        invariant
            k <= list@.len(),
            forall|j: int| 0 <= j < k ==> bytes_list_view(list@)[j] != x@,
        decreases list@.len() - k,
    {
        if bytes_eq(&list[k], x) {
            proof {
                assert(bytes_list_view(list@)[k as int] == x@);
            }
            return true;
        }
        k = k + 1;
    }
    false
}

pub proof fn lemma_dec_bytes_list(s: Seq<u8>, i: int, items: Seq<Seq<u8>>)
    requires
        0 <= i,
        bytes_list_wf(items),
        i + spec_enc_bytes_list(items).len() <= s.len(),
        s.subrange(i, i + spec_enc_bytes_list(items).len()) == spec_enc_bytes_list(items),
    ensures
        spec_dec_bytes_list(s, i) == Some((items, i + spec_enc_bytes_list(items).len())),
{
    let body = spec_enc_bytes_items(items, 0);
    let whole = spec_enc_bytes_list(items);
    lemma_subrange_of_subrange(s, i, i + whole.len(), 0, 4);
    assert(s.subrange(i, i + 4) =~= spec_enc_u32(items.len() as u32));
    lemma_dec_u32(s, i, items.len() as u32);
    lemma_subrange_of_subrange(s, i, i + whole.len(), 4, whole.len() as int);
    assert(s.subrange(i + 4, i + 4 + body.len()) =~= body);
    lemma_dec_bytes_items(s, i + 4, items, 0);
    assert(items.subrange(0, items.len() as int) =~= items);
}

} // verus!
