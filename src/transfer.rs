//! Decoding of transfer logs and their classification against a registry.
use vstd::prelude::*;
use vstd::string::StringSliceAdditionalSpecFns;

use crate::amount::{amount_bound, be_value, Amount};
use crate::registry::{Address, Registry};

verus! {

/// The Keccak-256 digest of a byte string.
pub uninterp spec fn keccak256_of(data: Seq<u8>) -> Seq<u8>;

/// Relies on `ethers::utils::keccak256`: the Keccak-256 digest of `data`.
#[verifier::external_body]
fn keccak256(data: &[u8]) -> (r: [u8; 32])
    ensures
        r@ == keccak256_of(data@),
{
    ethers::utils::keccak256(data)
}

/// The canonical signature of the token transfer event.
pub const TRANSFER_SIGNATURE: &'static str = "Transfer(address,address,uint256)";

/// The first topic of every transfer log: the digest of the event signature,
/// by which the subscription filters the contract's logs.
pub fn transfer_topic() -> (r: [u8; 32])
    ensures
        r@ == keccak256_of(TRANSFER_SIGNATURE.spec_bytes()),
{
    keccak256(TRANSFER_SIGNATURE.as_bytes())
}

/// A log as the chain delivers it: 32-byte topics, a data payload, and where
/// it was recorded.
#[derive(Clone, Debug, PartialEq, Eq)]
pub struct RawLog {
    pub topics: Vec<[u8; 32]>,
    pub data: Vec<u8>,
    pub block_number: u64,
    pub tx_hash: [u8; 32],
}

/// A decoded token transfer.
#[derive(Clone, Copy, Debug, PartialEq, Eq)]
pub struct TransferEvent {
    pub from: Address,
    pub to: Address,
    pub amount: Amount,
    pub block_number: u64,
    pub tx_hash: [u8; 32],
}

#[derive(Clone, Copy, Debug, PartialEq, Eq)]
pub enum DecodeError {
    /// Fewer than three topics, or a payload whose value reaches 2^256.
    MalformedLog,
}

/// The address in the low-order 20 bytes of a 32-byte topic.
pub open spec fn topic_address(t: Seq<u8>) -> Seq<u8> {
    t.subrange(12, 32)
}

/// Whether a log has the shape of a transfer: the signature and two address
/// topics, and an amount below 2^256 (of any width).
pub open spec fn is_transfer_log(log: RawLog) -> bool {
    log.topics@.len() >= 3 && be_value(log.data@) < amount_bound()
}

/// What `decode` yields from a log of transfer shape.
pub open spec fn decoded_from(e: TransferEvent, log: RawLog) -> bool {
    &&& e.from.bytes@ == topic_address(log.topics@[1]@)
    &&& e.to.bytes@ == topic_address(log.topics@[2]@)
    &&& e.amount.value() == be_value(log.data@)
    &&& e.block_number == log.block_number
    &&& e.tx_hash@ == log.tx_hash@
}

/// The address held in a topic slot; the 12 padding bytes are ignored.
fn address_of_topic(t: &[u8; 32]) -> (r: Address)
    ensures
        r.bytes@ == topic_address(t@),
{
    let mut bytes = [0u8; 20];
    let mut i: usize = 0;
    while i < 20
        invariant
            i <= 20,
            forall|j: int| 0 <= j < i ==> bytes@[j] == t@[j + 12],
        decreases 20 - i,
    {
        bytes[i] = t[i + 12];
        i = i + 1;
    }
    assert(bytes@ =~= topic_address(t@));
    Address { bytes }
}

/// Decodes a transfer log: `from` and `to` from the second and third topics,
/// the amount from the big-endian data payload.
pub fn decode(log: &RawLog) -> (r: Result<TransferEvent, DecodeError>)
    ensures
        r.is_ok() == is_transfer_log(*log),
        r matches Ok(e) ==> decoded_from(e, *log),
{
    if log.topics.len() < 3 {
        return Err(DecodeError::MalformedLog);
    }
    let amount = match Amount::from_be_bytes(log.data.as_slice()) {
        Some(a) => a,
        None => return Err(DecodeError::MalformedLog),
    };
    let from = address_of_topic(&log.topics[1]);
    let to = address_of_topic(&log.topics[2]);
    Ok(TransferEvent { from, to, amount, block_number: log.block_number, tx_hash: log.tx_hash })
}

/// The movement that a transfer makes for one exchange. At most one side
/// is non-zero.
#[derive(Clone, Debug, PartialEq, Eq)]
pub struct ClassifiedFlow {
    pub label: String,
    pub inflow: Amount,
    pub outflow: Amount,
}

impl ClassifiedFlow {
    /// Whether the transfer moves nothing into or out of the exchange.
    pub fn is_irrelevant(&self) -> (r: bool)
        ensures
            r == (self.inflow.value() == 0 && self.outflow.value() == 0),
    {
        self.inflow.is_zero() && self.outflow.is_zero()
    }
}

/// Inflow when `to` is monitored (even when `from` is too), else outflow
/// when `from` is monitored, else nothing.
pub fn classify(event: &TransferEvent, registry: &Registry) -> (r: ClassifiedFlow)
    ensures
        r.label@ == registry.label@,
        registry.contains_spec(event.to.bytes@) ==> r.inflow.value() == event.amount.value()
            && r.outflow.value() == 0,
        !registry.contains_spec(event.to.bytes@) && registry.contains_spec(event.from.bytes@)
            ==> r.inflow.value() == 0 && r.outflow.value() == event.amount.value(),
        !registry.contains_spec(event.to.bytes@) && !registry.contains_spec(event.from.bytes@)
            ==> r.inflow.value() == 0 && r.outflow.value() == 0,
{
    let label = registry.label.clone();
    if registry.contains(&event.to) {
        ClassifiedFlow { label, inflow: event.amount, outflow: Amount::zero() }
    } else if registry.contains(&event.from) {
        ClassifiedFlow { label, inflow: Amount::zero(), outflow: event.amount }
    } else {
        ClassifiedFlow { label, inflow: Amount::zero(), outflow: Amount::zero() }
    }
}

} // verus!
