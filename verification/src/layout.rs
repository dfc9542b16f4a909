use crate::error::AppError;
use crate::key::Pubkey;
use crate::pool::{Pool, PoolState};
use vstd::bytes::{spec_u64_from_le_bytes, spec_u64_to_le_bytes, u64_from_le_bytes, u64_to_le_bytes};
use vstd::prelude::*;
use vstd::slice::slice_subrange;

verus! {

/// Length of the canonical fixed-width record encoding.
pub const POOL_LEN: usize = 257;

/// The byte encoding a lifecycle state.
pub open spec fn spec_state_byte(s: PoolState) -> u8 {
    match s {
        PoolState::Uninitialized => 0u8,
        PoolState::Initialized => 1u8,
        PoolState::Frozen => 2u8,
    }
}

/// The canonical 257-byte record encoding: `owner`(32) `state`(1)
/// `mint_lpt`(32) `taxman`(32) `mint_a`(32) `treasury_a`(32) `reserve_a`(8,
/// little-endian) `mint_b`(32) `treasury_b`(32) `reserve_b`(8)
/// `fee_ratio`(8) `tax_ratio`(8).
pub open spec fn spec_pack(p: Pool) -> Seq<u8> {
    p.owner.bytes@ + seq![spec_state_byte(p.state)] + p.mint_lpt.bytes@ + p.taxman.bytes@
        + p.mint_a.bytes@ + p.treasury_a.bytes@ + spec_u64_to_le_bytes(p.reserve_a)
        + p.mint_b.bytes@ + p.treasury_b.bytes@ + spec_u64_to_le_bytes(p.reserve_b)
        + spec_u64_to_le_bytes(p.fee_ratio) + spec_u64_to_le_bytes(p.tax_ratio)
}

/// Whether the record `p` reads back from the bytes `src`.
pub open spec fn spec_unpacked(p: Pool, src: Seq<u8>) -> bool {
    &&& src.len() == 257
    &&& p.owner.bytes@ == src.subrange(0, 32)
    &&& spec_state_byte(p.state) == src[32]
    &&& p.mint_lpt.bytes@ == src.subrange(33, 65)
    &&& p.taxman.bytes@ == src.subrange(65, 97)
    &&& p.mint_a.bytes@ == src.subrange(97, 129)
    &&& p.treasury_a.bytes@ == src.subrange(129, 161)
    &&& p.reserve_a == spec_u64_from_le_bytes(src.subrange(161, 169))
    &&& p.mint_b.bytes@ == src.subrange(169, 201)
    &&& p.treasury_b.bytes@ == src.subrange(201, 233)
    &&& p.reserve_b == spec_u64_from_le_bytes(src.subrange(233, 241))
    &&& p.fee_ratio == spec_u64_from_le_bytes(src.subrange(241, 249))
    &&& p.tax_ratio == spec_u64_from_le_bytes(src.subrange(249, 257))
}

/// A valid state byte: one that some lifecycle state encodes to.
pub open spec fn spec_state_byte_valid(b: u8) -> bool {
    b == 0 || b == 1 || b == 2
}

impl Pool {
    /// Writes the canonical 257-byte encoding of the record.
    pub fn pack(&self) -> (out: Vec<u8>)
        ensures
            out@ == spec_pack(*self),
            out@.len() == 257,
    {
        proof {
            vstd::bytes::lemma_auto_spec_u64_to_from_le_bytes();
        }
        let mut out: Vec<u8> = Vec::new();
        push_key(&mut out, &self.owner);
        out.push(state_to_byte(self.state));
        push_key(&mut out, &self.mint_lpt);
        push_key(&mut out, &self.taxman);
        push_key(&mut out, &self.mint_a);
        push_key(&mut out, &self.treasury_a);
        push_u64_le(&mut out, self.reserve_a);
        push_key(&mut out, &self.mint_b);
        push_key(&mut out, &self.treasury_b);
        push_u64_le(&mut out, self.reserve_b);
        push_u64_le(&mut out, self.fee_ratio);
        push_u64_le(&mut out, self.tax_ratio);
        out
    }

    /// Reads a record back from its canonical encoding without demanding an
    /// initialized state: the reader a pool-creation path needs. Anything
    /// but 257 bytes with a valid state byte is rejected before any field
    /// is used.
    pub fn unpack_unchecked(src: &[u8]) -> (r: Result<Pool, AppError>)
        ensures
            r is Ok <==> (src@.len() == 257 && spec_state_byte_valid(src@[32])),
            r is Ok ==> spec_unpacked(r->Ok_0, src@),
            r is Err ==> r == Err::<Pool, AppError>(AppError::InvalidInstruction),
    {
        if src.len() != POOL_LEN {
            return Err(AppError::InvalidInstruction);
        }
        let state = match byte_to_state(*vstd::slice::slice_index_get(src, 32)) {
            Some(s) => s,
            None => {
                return Err(AppError::InvalidInstruction);
            },
        };
        let pool = Pool {
            owner: read_key(src, 0),
            state,
            mint_lpt: read_key(src, 33),
            taxman: read_key(src, 65),
            mint_a: read_key(src, 97),
            treasury_a: read_key(src, 129),
            reserve_a: read_u64_le(src, 161),
            mint_b: read_key(src, 169),
            treasury_b: read_key(src, 201),
            reserve_b: read_u64_le(src, 233),
            fee_ratio: read_u64_le(src, 241),
            tax_ratio: read_u64_le(src, 249),
        };
        Ok(pool)
    }

    /// Reads a record back from its canonical encoding; on top of the shape
    /// checks, a record that was never initialized is refused, so every
    /// record this reader hands out names a live pool.
    pub fn unpack(src: &[u8]) -> (r: Result<Pool, AppError>)
        ensures
            r is Ok <==> (src@.len() == 257 && (src@[32] == 1 || src@[32] == 2)),
            r is Ok ==> spec_unpacked(r->Ok_0, src@) && !(r->Ok_0.state is Uninitialized),
            r is Err ==> r == Err::<Pool, AppError>(AppError::InvalidInstruction),
    {
        let pool = match Pool::unpack_unchecked(src) {
            Ok(p) => p,
            Err(e) => {
                return Err(e);
            },
        };
        if !pool.is_initialized() {
            return Err(AppError::InvalidInstruction);
        }
        Ok(pool)
    }
}

/// The bytes of a packed record read back as the record that was packed.
pub proof fn lemma_pack_unpacks(p: Pool)
    ensures
        spec_pack(p).len() == 257,
        spec_pack(p)[32] == spec_state_byte(p.state),
        spec_state_byte_valid(spec_pack(p)[32]),
        spec_unpacked(p, spec_pack(p)),
{
    vstd::bytes::lemma_auto_spec_u64_to_from_le_bytes();
    let s = spec_pack(p);
    assert(p.owner.bytes@ =~= s.subrange(0, 32));
    assert(p.mint_lpt.bytes@ =~= s.subrange(33, 65));
    assert(p.taxman.bytes@ =~= s.subrange(65, 97));
    assert(p.mint_a.bytes@ =~= s.subrange(97, 129));
    assert(p.treasury_a.bytes@ =~= s.subrange(129, 161));
    assert(spec_u64_to_le_bytes(p.reserve_a) =~= s.subrange(161, 169));
    assert(p.mint_b.bytes@ =~= s.subrange(169, 201));
    assert(p.treasury_b.bytes@ =~= s.subrange(201, 233));
    assert(spec_u64_to_le_bytes(p.reserve_b) =~= s.subrange(233, 241));
    assert(spec_u64_to_le_bytes(p.fee_ratio) =~= s.subrange(241, 249));
    assert(spec_u64_to_le_bytes(p.tax_ratio) =~= s.subrange(249, 257));
}

/// One byte string pins the record: two records that read back from the
/// same bytes are equal.
pub proof fn lemma_unpacked_unique(p1: Pool, p2: Pool, src: Seq<u8>)
    requires
        spec_unpacked(p1, src),
        spec_unpacked(p2, src),
    ensures
        p1 == p2,
{
    assert(p1.owner.bytes =~= p2.owner.bytes);
    assert(p1.mint_lpt.bytes =~= p2.mint_lpt.bytes);
    assert(p1.taxman.bytes =~= p2.taxman.bytes);
    assert(p1.mint_a.bytes =~= p2.mint_a.bytes);
    assert(p1.treasury_a.bytes =~= p2.treasury_a.bytes);
    assert(p1.mint_b.bytes =~= p2.mint_b.bytes);
    assert(p1.treasury_b.bytes =~= p2.treasury_b.bytes);
}

/// The state byte is what `byte_to_state` inverts.
fn state_to_byte(s: PoolState) -> (r: u8)
    ensures
        r == spec_state_byte(s),
{
    match s {
        PoolState::Uninitialized => 0,
        PoolState::Initialized => 1,
        PoolState::Frozen => 2,
    }
}

/// Decodes a state byte; only 0, 1 and 2 are valid.
fn byte_to_state(b: u8) -> (r: Option<PoolState>)
    ensures
        r is Some <==> spec_state_byte_valid(b),
        r is Some ==> spec_state_byte(r->0) == b,
{
    if b == 0 {
        Some(PoolState::Uninitialized)
    } else if b == 1 {
        Some(PoolState::Initialized)
    } else if b == 2 {
        Some(PoolState::Frozen)
    } else {
        None
    }
}

/// Appends the 32 bytes of an identity.
fn push_key(out: &mut Vec<u8>, key: &Pubkey)
    ensures
        final(out)@ == old(out)@ + key.bytes@,
{
    let mut i: usize = 0;
    while i < 32
        invariant
            0 <= i <= 32,
            out@ == old(out)@ + key.bytes@.subrange(0, i as int),
        decreases 32 - i,
    {
        out.push(key.bytes[i]);
        proof {
            assert(out@ =~= old(out)@ + key.bytes@.subrange(0, i + 1));
        }
        i = i + 1;
    }
    proof {
        assert(key.bytes@.subrange(0, 32) =~= key.bytes@);
    }
}

/// Appends a 64-bit value in little-endian order.
fn push_u64_le(out: &mut Vec<u8>, x: u64)
    ensures
        final(out)@ == old(out)@ + spec_u64_to_le_bytes(x),
{
    let mut bytes = u64_to_le_bytes(x);
    out.append(&mut bytes);
}

/// Reads the 32 bytes of an identity at `offset`.
fn read_key(src: &[u8], offset: usize) -> (r: Pubkey)
    requires
        offset + 32 <= src@.len(),
        src@.len() <= usize::MAX,
    ensures
        r.bytes@ == src@.subrange(offset as int, offset as int + 32),
{
    let mut bytes = [0u8; 32];
    let mut i: usize = 0;
    while i < 32
        invariant
            0 <= i <= 32,
            offset + 32 <= src@.len(),
            src@.len() <= usize::MAX,
            forall|j: int| 0 <= j < i ==> bytes@[j] == src@[offset + j],
        decreases 32 - i,
    {
        bytes[i] = *vstd::slice::slice_index_get(src, offset + i);
        i = i + 1;
    }
    proof {
        assert(bytes@ =~= src@.subrange(offset as int, offset as int + 32));
    }
    Pubkey { bytes }
}

/// Reads a little-endian 64-bit value at `offset`.
pub(crate) fn read_u64_le(src: &[u8], offset: usize) -> (r: u64)
    requires
        offset + 8 <= src@.len(),
        src@.len() <= usize::MAX,
    ensures
        r == spec_u64_from_le_bytes(src@.subrange(offset as int, offset as int + 8)),
{
    let part = slice_subrange(src, offset, offset + 8);
    u64_from_le_bytes(part)
}

} // verus!
