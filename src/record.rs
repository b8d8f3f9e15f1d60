//! Account records, operation results, and the binary codec for records.

use vstd::prelude::*;

verus! {

/// Per-identity account state.
#[derive(Clone, Copy, Debug, PartialEq, Eq, Structural)]
pub struct UserData {
    pub default_swap_amount: u64,
    pub icp_balance: u64,
    pub total_deposits: u64,
    pub total_swaps: u64,
}

impl UserData {
    /// The record every identity starts with: all fields zero.
    pub open spec fn zero() -> UserData {
        UserData { default_swap_amount: 0, icp_balance: 0, total_deposits: 0, total_swaps: 0 }
    }
}

impl Default for UserData {
    fn default() -> (r: Self)
        ensures
            r == UserData::zero(),
    {
        UserData { default_swap_amount: 0, icp_balance: 0, total_deposits: 0, total_swaps: 0 }
    }
}

/// Everything known about one identity: its record and its non-zero token holdings.
#[derive(Clone, Debug)]
pub struct UserPortfolio {
    pub icp_balance: u64,
    pub default_swap_amount: u64,
    pub token_balances: Vec<(String, u64)>,
    pub total_deposits: u64,
    pub total_swaps: u64,
}

/// Outcome of a balance-changing operation.
#[derive(Clone, Debug)]
pub struct TransactionResult {
    pub success: bool,
    pub message: String,
    pub new_icp_balance: u64,
    pub new_token_balance: Option<u64>,
}

/// Reasons an operation can be refused.
#[derive(Clone, Copy, Debug, PartialEq, Eq, Structural)]
pub enum SwipeError {
    InsufficientBalance,
    InvalidAmount,
    TokenNotFound,
    UserNotFound,
}

/// Tag written in front of every encoded record.
pub const RECORD_VERSION: u8 = 1;

/// Length in bytes of an encoded record: the tag and four little-endian `u64`s.
pub const RECORD_LEN: usize = 33;

/// Byte `k` (0 = least significant) of `x`.
pub open spec fn byte_of(x: u64, k: u64) -> u8 {
    ((x >> (8 * k)) & 0xff) as u8
}

/// The eight little-endian bytes of `x`.
pub open spec fn u64_le(x: u64) -> Seq<u8> {
    seq![
        byte_of(x, 0), byte_of(x, 1), byte_of(x, 2), byte_of(x, 3),
        byte_of(x, 4), byte_of(x, 5), byte_of(x, 6), byte_of(x, 7),
    ]
}

/// The `u64` whose little-endian bytes are `b[at..at + 8]`.
pub open spec fn u64_at(b: Seq<u8>, at: int) -> u64 {
    (b[at] as u64)
        | ((b[at + 1] as u64) << 8u64)
        | ((b[at + 2] as u64) << 16u64)
        | ((b[at + 3] as u64) << 24u64)
        | ((b[at + 4] as u64) << 32u64)
        | ((b[at + 5] as u64) << 40u64)
        | ((b[at + 6] as u64) << 48u64)
        | ((b[at + 7] as u64) << 56u64)
}

/// The persisted form of a record.
pub open spec fn encode_spec(r: UserData) -> Seq<u8> {
    seq![RECORD_VERSION] + u64_le(r.default_swap_amount) + u64_le(r.icp_balance) + u64_le(
        r.total_deposits,
    ) + u64_le(r.total_swaps)
}

/// The record a byte string holds, if it is a well-formed encoding.
pub open spec fn decode_spec(b: Seq<u8>) -> Option<UserData> {
    if b.len() == RECORD_LEN && b[0] == RECORD_VERSION {
        Some(
            UserData {
                default_swap_amount: u64_at(b, 1),
                icp_balance: u64_at(b, 9),
                total_deposits: u64_at(b, 17),
                total_swaps: u64_at(b, 25),
            },
        )
    } else {
        None
    }
}

proof fn lemma_byte_of(x: u64, k: u64)
    requires
        k < 8,
    ensures
        byte_of(x, k) as u64 == (x >> (8 * k)) & 0xff,
{
    assert((x >> (8 * k)) & 0xff < 256) by (bit_vector);
}

proof fn lemma_u64_le_inverse(x: u64)
    ensures
        u64_at(u64_le(x), 0) == x,
{
    lemma_byte_of(x, 0);
    lemma_byte_of(x, 1);
    lemma_byte_of(x, 2);
    lemma_byte_of(x, 3);
    lemma_byte_of(x, 4);
    lemma_byte_of(x, 5);
    lemma_byte_of(x, 6);
    lemma_byte_of(x, 7);
    assert(x == (((x >> 0u64) & 0xff) | (((x >> 8u64) & 0xff) << 8u64) | (((x >> 16u64) & 0xff)
        << 16u64) | (((x >> 24u64) & 0xff) << 24u64) | (((x >> 32u64) & 0xff) << 32u64) | (((x
        >> 40u64) & 0xff) << 40u64) | (((x >> 48u64) & 0xff) << 48u64) | (((x >> 56u64) & 0xff)
        << 56u64))) by (bit_vector);
}

/// Decoding the encoding of any record gives that record back.
pub proof fn lemma_record_round_trip(r: UserData)
    ensures
        decode_spec(encode_spec(r)) == Some(r),
{
    let b = encode_spec(r);
    let fields = seq![
        r.default_swap_amount,
        r.icp_balance,
        r.total_deposits,
        r.total_swaps,
    ];
    assert forall|k: int| 0 <= k < 4 implies u64_at(b, 1 + 8 * k) == #[trigger] fields[k] by {
        lemma_u64_le_inverse(fields[k]);
        assert(b.subrange(1 + 8 * k, 9 + 8 * k) =~= u64_le(fields[k]));
        assert forall|j: int| 0 <= j < 8 implies b[1 + 8 * k + j] == u64_le(fields[k])[j] by {
            assert(b.subrange(1 + 8 * k, 9 + 8 * k)[j] == b[1 + 8 * k + j]);
        }
    }
    assert(fields[0] == r.default_swap_amount);
    assert(fields[1] == r.icp_balance);
    assert(fields[2] == r.total_deposits);
    assert(fields[3] == r.total_swaps);
}

fn push_u64_le(out: &mut Vec<u8>, x: u64)
    ensures
        final(out)@ == old(out)@ + u64_le(x),
{
    let mut k: u64 = 0;
    while k < 8
        invariant
            k <= 8,
            out@ == old(out)@ + u64_le(x).subrange(0, k as int),
        decreases 8 - k,
    {
        let byte = ((x >> (8 * k)) & 0xff) as u8;
        out.push(byte);
        assert(u64_le(x).subrange(0, k + 1) =~= u64_le(x).subrange(0, k as int).push(
            byte_of(x, k),
        ));
        k = k + 1;
    }
    assert(u64_le(x).subrange(0, 8) =~= u64_le(x));
}

fn read_u64_le(b: &[u8], at: usize) -> (r: u64)
    requires
        at + 8 <= b@.len(),
    ensures
        r == u64_at(b@, at as int),
{
    (b[at] as u64) | ((b[at + 1] as u64) << 8u64) | ((b[at + 2] as u64) << 16u64) | ((b[at
        + 3] as u64) << 24u64) | ((b[at + 4] as u64) << 32u64) | ((b[at + 5] as u64) << 40u64)
        | ((b[at + 6] as u64) << 48u64) | ((b[at + 7] as u64) << 56u64)
}

impl UserData {
    /// The persisted form of this record.
    pub fn to_bytes(&self) -> (r: Vec<u8>)
        ensures
            r@ == encode_spec(*self),
    {
        let mut out: Vec<u8> = Vec::new();
        out.push(RECORD_VERSION);
        push_u64_le(&mut out, self.default_swap_amount);
        push_u64_le(&mut out, self.icp_balance);
        push_u64_le(&mut out, self.total_deposits);
        push_u64_le(&mut out, self.total_swaps);
        assert(out@ =~= encode_spec(*self));
        out
    }

    /// `bytes` are a well-formed encoding of a record.
    pub fn is_encoding(bytes: &[u8]) -> (r: bool)
        ensures
            r == decode_spec(bytes@) is Some,
    {
        bytes.len() == RECORD_LEN && bytes[0] == RECORD_VERSION
    }

    /// The record held by `bytes`. Bytes that are no encoding of a record mean
    /// the store is corrupt; they are outside this function's domain, and
    /// callers test them with `is_encoding` first.
    pub fn from_bytes(bytes: &[u8]) -> (r: UserData)
        requires
            decode_spec(bytes@) is Some,
        ensures
            Some(r) == decode_spec(bytes@),
    {
        UserData {
            default_swap_amount: read_u64_le(bytes, 1),
            icp_balance: read_u64_le(bytes, 9),
            total_deposits: read_u64_le(bytes, 17),
            total_swaps: read_u64_le(bytes, 25),
        }
    }
}

} // verus!
