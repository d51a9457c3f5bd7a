use vstd::prelude::*;
use vstd::utf8::encode_utf8;

use crate::config::{StorageValueConfigProposeData, VoteSlot};
use crate::types::{ArtifactId, InstanceSpec};

verus! {

/// The eight bytes of `x`, least significant first.
pub open spec fn u64_le(x: u64) -> Seq<u8> {
    seq![
        (x % 256) as u8,
        ((x / 0x100) % 256) as u8,
        ((x / 0x10000) % 256) as u8,
        ((x / 0x1000000) % 256) as u8,
        ((x / 0x100000000) % 256) as u8,
        ((x / 0x10000000000) % 256) as u8,
        ((x / 0x1000000000000) % 256) as u8,
        ((x / 0x100000000000000) % 256) as u8,
    ]
}

/// Appends the eight bytes of `x`, least significant first.
pub fn push_u64_le(out: &mut Vec<u8>, x: u64)
    ensures
        final(out)@ == old(out)@ + u64_le(x),
{
    out.push((x % 256) as u8);
    out.push(((x / 0x100) % 256) as u8);
    out.push(((x / 0x10000) % 256) as u8);
    out.push(((x / 0x1000000) % 256) as u8);
    out.push(((x / 0x100000000) % 256) as u8);
    out.push(((x / 0x10000000000) % 256) as u8);
    out.push(((x / 0x1000000000000) % 256) as u8);
    out.push(((x / 0x100000000000000) % 256) as u8);
    assert(out@ =~= old(out)@ + u64_le(x));
}

/// The four bytes of `x`, least significant first.
pub open spec fn u32_le(x: u32) -> Seq<u8> {
    seq![
        (x % 256) as u8,
        ((x / 0x100) % 256) as u8,
        ((x / 0x10000) % 256) as u8,
        ((x / 0x1000000) % 256) as u8,
    ]
}

/// Appends the four bytes of `x`, least significant first.
pub fn push_u32_le(out: &mut Vec<u8>, x: u32)
    ensures
        final(out)@ == old(out)@ + u32_le(x),
{
    out.push((x % 256) as u8);
    out.push(((x / 0x100) % 256) as u8);
    out.push(((x / 0x10000) % 256) as u8);
    out.push(((x / 0x1000000) % 256) as u8);
    assert(out@ =~= old(out)@ + u32_le(x));
}

/// Appends the bytes of `b`.
pub fn push_bytes(out: &mut Vec<u8>, b: &[u8])
    ensures
        final(out)@ == old(out)@ + b@,
{
    let ghost start = out@;
    let mut i: usize = 0;
    while i < b.len()
        invariant
            0 <= i <= b@.len(),
            out@ == start + b@.subrange(0, i as int),
        decreases b@.len() - i,
    {
        out.push(b[i]);
        i = i + 1;
        assert(out@ =~= start + b@.subrange(0, i as int));
    }
    assert(b@.subrange(0, i as int) =~= b@);
}

/// Appends the 32 bytes of `a`.
pub fn push_array(out: &mut Vec<u8>, a: &[u8; 32])
    ensures
        final(out)@ == old(out)@ + a@,
{
    let ghost start = out@;
    let mut i: usize = 0;
    while i < 32
        invariant
            0 <= i <= 32,
            a@.len() == 32,
            out@ == start + a@.subrange(0, i as int),
        decreases 32 - i,
    {
        out.push(a[i]);
        i = i + 1;
        assert(out@ =~= start + a@.subrange(0, i as int));
    }
    assert(a@.subrange(0, 32) =~= a@);
}

/// The stored form of a vote slot: the author's key then the configuration hash, or
/// 64 zero bytes for a slot without a vote.
pub open spec fn vote_slot_bytes(slot: VoteSlot) -> Seq<u8> {
    match slot {
        VoteSlot::Empty => Seq::new(64, |i: int| 0u8),
        VoteSlot::Cast(v) => v.from.bytes@ + v.cfg_hash.bytes@,
    }
}

/// Encodes a vote slot as `vote_slot_bytes` says.
pub fn encode_vote_slot(slot: &VoteSlot) -> (r: Vec<u8>)
    ensures
        r@ == vote_slot_bytes(*slot),
{
    let mut out: Vec<u8> = Vec::new();
    match slot {
        VoteSlot::Empty => {
            let mut i: usize = 0;
            while i < 64
                invariant
                    0 <= i <= 64,
                    out@ == Seq::new(i as nat, |j: int| 0u8),
                decreases 64 - i,
            {
                out.push(0u8);
                i = i + 1;
                assert(out@ =~= Seq::new(i as nat, |j: int| 0u8));
            }
        },
        VoteSlot::Cast(v) => {
            push_array(&mut out, &v.from.bytes);
            push_array(&mut out, &v.cfg_hash.bytes);
            assert(out@ =~= v.from.bytes@ + v.cfg_hash.bytes@);
        },
    }
    out
}

/// The stored form of a proposal: the author's key, the length of the configuration text
/// in bytes, its UTF-8 bytes, the votes root hash and the number of vote slots, integers
/// least significant byte first.
pub open spec fn propose_data_bytes(d: StorageValueConfigProposeData) -> Seq<u8> {
    let cfg = encode_utf8(d.tx_propose.cfg@);
    d.tx_propose.from.bytes@ + u64_le(cfg.len() as u64) + cfg + d.votes_history_hash.bytes@
        + u64_le(d.num_votes)
}

/// Encodes a proposal as `propose_data_bytes` says.
pub fn encode_propose_data(d: &StorageValueConfigProposeData) -> (r: Vec<u8>)
    ensures
        r@ == propose_data_bytes(*d),
{
    let cfg = d.tx_propose.cfg.as_str().as_bytes();
    let mut out: Vec<u8> = Vec::new();
    push_array(&mut out, &d.tx_propose.from.bytes);
    push_u64_le(&mut out, cfg.len() as u64);
    push_bytes(&mut out, cfg);
    push_array(&mut out, &d.votes_history_hash.bytes);
    push_u64_le(&mut out, d.num_votes);
    assert(out@ =~= propose_data_bytes(*d));
    out
}

/// The stored form of an artifact identifier: the runtime identifier, then the UTF-8
/// bytes of the name.
pub open spec fn artifact_id_bytes(a: (u32, Seq<char>)) -> Seq<u8> {
    u32_le(a.0) + encode_utf8(a.1)
}

/// Encodes an artifact identifier as `artifact_id_bytes` says.
pub fn encode_artifact_id(a: &ArtifactId) -> (r: Vec<u8>)
    ensures
        r@ == artifact_id_bytes(a@),
{
    let mut out: Vec<u8> = Vec::new();
    push_u32_le(&mut out, a.runtime_id);
    push_bytes(&mut out, a.name.as_str().as_bytes());
    assert(out@ =~= artifact_id_bytes(a@));
    out
}

/// The stored form of an instance: its identifier, the length of its name in bytes, the
/// UTF-8 bytes of the name, then its artifact identifier.
pub open spec fn instance_bytes(s: (u32, Seq<char>, (u32, Seq<char>))) -> Seq<u8> {
    let name = encode_utf8(s.1);
    u32_le(s.0) + u64_le(name.len() as u64) + name + artifact_id_bytes(s.2)
}

/// Encodes an instance specification as `instance_bytes` says.
pub fn encode_instance_spec(s: &InstanceSpec) -> (r: Vec<u8>)
    ensures
        r@ == instance_bytes(s@),
{
    let name = s.name.as_str().as_bytes();
    let mut out: Vec<u8> = Vec::new();
    push_u32_le(&mut out, s.id);
    push_u64_le(&mut out, name.len() as u64);
    push_bytes(&mut out, name);
    let artifact = encode_artifact_id(&s.artifact);
    push_bytes(&mut out, artifact.as_slice());
    assert(out@ =~= instance_bytes(s@));
    out
}

} // verus!
