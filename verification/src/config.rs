//! Group configuration: the decoded value, the opaque blob carried by
//! `ValidateConfig` / `UpdateConfig`, and the blob decoder with its
//! round-trip law.

use vstd::prelude::*;

use crate::wire::{
    bytes_list_view, bytes_list_wf, clone_bytes_list, dec_bool, dec_bytes_list, dec_u32, dec_u64,
    enc_bool, enc_bytes_list, enc_u32, enc_u64, lemma_dec_bool, lemma_dec_bytes_list,
    lemma_dec_u32, lemma_dec_u64, lemma_subrange_of_subrange, spec_dec_bool, spec_dec_bytes_list,
    spec_dec_u32, spec_dec_u64, spec_enc_bool, spec_enc_bytes_list, spec_enc_u32, spec_enc_u64,
};

verus! {

/// The user configuration a group runs under.
///
/// Transports (listen addresses and predefined peers) are byte strings.
#[verifier::ext_equal]
#[derive(Debug, PartialEq)]
pub struct ConfigValue {
    /// Capacity of every mailbox spawned under this configuration.
    pub mailbox_capacity: u32,
    /// Base retry backoff of the dialer, in milliseconds.
    pub attempt_interval_ms: u64,
    /// Whether the LZ4 capability is offered to peers.
    pub lz4: bool,
    /// Transports to bind.
    pub listen: Vec<Vec<u8>>,
    /// Peers to dial at startup.
    pub predefined: Vec<Vec<u8>>,
}

/// The mathematical content of a `ConfigValue`.
pub struct ConfigView {
    pub mailbox_capacity: u32,
    pub attempt_interval_ms: u64,
    pub lz4: bool,
    pub listen: Seq<Seq<u8>>,
    pub predefined: Seq<Seq<u8>>,
}

impl View for ConfigValue {
    type V = ConfigView;

    open spec fn view(&self) -> ConfigView {
        ConfigView {
            mailbox_capacity: self.mailbox_capacity,
            attempt_interval_ms: self.attempt_interval_ms,
            lz4: self.lz4,
            listen: bytes_list_view(self.listen@),
            predefined: bytes_list_view(self.predefined@),
        }
    }
}

/// Transport lists short enough for their length prefixes.
pub open spec fn config_wf(c: ConfigView) -> bool {
    bytes_list_wf(c.listen) && bytes_list_wf(c.predefined)
}

impl ConfigValue {
    /// Copies the configuration; the contract pins the copy to the original.
    pub fn dup(&self) -> (r: ConfigValue)
        ensures
            r@ == self@,
    {
        ConfigValue {
            mailbox_capacity: self.mailbox_capacity,
            attempt_interval_ms: self.attempt_interval_ms,
            lz4: self.lz4,
            listen: clone_bytes_list(&self.listen),
            predefined: clone_bytes_list(&self.predefined),
        }
    }
}

// ---------------------------------------------------------------------------
// Blob encoding
// ---------------------------------------------------------------------------

pub open spec fn spec_enc_config(c: ConfigView) -> Seq<u8> {
    spec_enc_u32(c.mailbox_capacity) + spec_enc_u64(c.attempt_interval_ms) + spec_enc_bool(c.lz4)
        + spec_enc_bytes_list(c.listen) + spec_enc_bytes_list(c.predefined)
}

/// Parses a configuration blob. The whole blob must be consumed.
pub open spec fn spec_dec_config(s: Seq<u8>) -> Option<ConfigView> {
    match spec_dec_u32(s, 0) {
        Some((cap, i)) => match spec_dec_u64(s, i) {
            Some((interval, i)) => match spec_dec_bool(s, i) {
                Some((lz4, i)) => match spec_dec_bytes_list(s, i) {
                    Some((listen, i)) => match spec_dec_bytes_list(s, i) {
                        Some((predefined, i)) => if i == s.len() {
                            Some(
                                ConfigView {
                                    mailbox_capacity: cap,
                                    attempt_interval_ms: interval,
                                    lz4,
                                    listen,
                                    predefined,
                                },
                            )
                        } else {
                            None
                        },
                        None => None,
                    },
                    None => None,
                },
                None => None,
            },
            None => None,
        },
        None => None,
    }
}

pub fn encode_config(c: &ConfigValue) -> (r: Vec<u8>)
    requires
        config_wf(c@),
    ensures
        r@ == spec_enc_config(c@),
{
    let mut out: Vec<u8> = Vec::new();
    enc_u32(&mut out, c.mailbox_capacity);
    enc_u64(&mut out, c.attempt_interval_ms);
    enc_bool(&mut out, c.lz4);
    enc_bytes_list(&mut out, &c.listen);
    enc_bytes_list(&mut out, &c.predefined);
    proof {
        assert(out@ =~= spec_enc_config(c@));
    }
    out
}

pub fn decode_config(s: &Vec<u8>) -> (r: Option<ConfigValue>)
    ensures
        match r {
            Some(c) => spec_dec_config(s@) == Some(c@),
            None => spec_dec_config(s@) is None,
        },
{
    let (cap, i) = match dec_u32(s, 0) {
        Some(x) => x,
        None => {
            return None;
        },
    };
    let (interval, i) = match dec_u64(s, i) {
        Some(x) => x,
        None => {
            return None;
        },
    };
    let (lz4, i) = match dec_bool(s, i) {
        Some(x) => x,
        None => {
            return None;
        },
    };
    let (listen, i) = match dec_bytes_list(s, i) {
        Some(x) => x,
        None => {
            return None;
        },
    };
    let (predefined, i) = match dec_bytes_list(s, i) {
        Some(x) => x,
        None => {
            return None;
        },
    };
    if i != s.len() {
        return None;
    }
    Some(ConfigValue { mailbox_capacity: cap, attempt_interval_ms: interval, lz4, listen, predefined })
}

/// Decoding an encoded configuration gives the configuration back.
pub proof fn lemma_config_round_trip(c: ConfigView)
    requires
        config_wf(c),
    ensures
        spec_dec_config(spec_enc_config(c)) == Some(c),
{
    let s = spec_enc_config(c);
    let p0 = spec_enc_u32(c.mailbox_capacity);
    let p1 = spec_enc_u64(c.attempt_interval_ms);
    let p2 = spec_enc_bool(c.lz4);
    let p3 = spec_enc_bytes_list(c.listen);
    let p4 = spec_enc_bytes_list(c.predefined);
    let i0: int = 0;
    let i1 = i0 + p0.len();
    let i2 = i1 + p1.len();
    let i3 = i2 + p2.len();
    let i4 = i3 + p3.len();
    let i5 = i4 + p4.len();
    assert(s.len() == i5);
    assert(s.subrange(i0, i1) =~= p0);
    lemma_dec_u32(s, i0, c.mailbox_capacity);
    assert(s.subrange(i1, i2) =~= p1);
    lemma_dec_u64(s, i1, c.attempt_interval_ms);
    assert(s.subrange(i2, i3) =~= p2);
    lemma_dec_bool(s, i2, c.lz4);
    assert(s.subrange(i3, i4) =~= p3);
    lemma_dec_bytes_list(s, i3, c.listen);
    assert(s.subrange(i4, i5) =~= p4);
    lemma_dec_bytes_list(s, i4, c.predefined);
}

// ---------------------------------------------------------------------------
// The opaque blob handed around by config messages
// ---------------------------------------------------------------------------

/// Why a configuration blob was rejected.
#[derive(Clone, Copy, PartialEq, Eq, Structural, Debug)]
pub enum ConfigError {
    /// The blob is not an encoding of any configuration.
    Malformed,
}

/// A configuration blob plus, once `decode` succeeded, the decoded value.
#[verifier::ext_equal]
#[derive(Debug, PartialEq)]
pub struct AnyConfig {
    pub blob: Vec<u8>,
    pub decoded: Option<ConfigValue>,
}

/// The mathematical content of an `AnyConfig`.
pub struct AnyConfigView {
    pub blob: Seq<u8>,
    pub decoded: Option<ConfigView>,
}

impl View for AnyConfig {
    type V = AnyConfigView;

    open spec fn view(&self) -> AnyConfigView {
        AnyConfigView {
            blob: self.blob@,
            decoded: match self.decoded {
                Some(c) => Some(c@),
                None => None,
            },
        }
    }
}

impl AnyConfigView {
    /// The cache, when set, holds exactly what the blob decodes to.
    pub open spec fn wf(self) -> bool {
        match self.decoded {
            Some(c) => spec_dec_config(self.blob) == Some(c),
            None => true,
        }
    }
}

impl AnyConfig {
    pub fn from_blob(blob: Vec<u8>) -> (r: AnyConfig)
        ensures
            r@.wf(),
            r@.blob == blob@,
            r@.decoded is None,
    {
        AnyConfig { blob, decoded: None }
    }

    /// Decodes the blob; on success the result carries the decoded value.
    pub fn decode(&self) -> (r: Result<AnyConfig, ConfigError>)
        ensures
            match r {
                Ok(c) => {
                    &&& c@.wf()
                    &&& c@.blob == self.blob@
                    &&& c@.decoded matches Some(v) && spec_dec_config(self.blob@) == Some(v)
                },
                Err(e) => spec_dec_config(self.blob@) is None && e == ConfigError::Malformed,
            },
    {
        match decode_config(&self.blob) {
            Some(v) => Ok(
                AnyConfig { blob: crate::wire::clone_bytes(&self.blob), decoded: Some(v) },
            ),
            None => Err(ConfigError::Malformed),
        }
    }

    /// The decoded user configuration; callers must have decoded first.
    pub fn get_user(&self) -> (r: &ConfigValue)
        requires
            self@.decoded is Some,
        ensures
            Some(r@) == self@.decoded,
    {
        match &self.decoded {
            Some(v) => v,
            None => unreached(),
        }
    }

    /// Copies the blob and the cache.
    pub fn dup(&self) -> (r: AnyConfig)
        ensures
            r@ == self@,
    {
        AnyConfig {
            blob: crate::wire::clone_bytes(&self.blob),
            decoded: match &self.decoded {
                Some(v) => Some(v.dup()),
                None => None,
            },
        }
    }
}

} // verus!
