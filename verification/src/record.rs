//! How an order is written into the order store: a fixed header, then the
//! owner's bytes and the two currencies in UTF-8.
//!
//! | bytes      | field                                         |
//! |------------|-----------------------------------------------|
//! | 0 .. 8     | id, little-endian                             |
//! | 8 .. 16    | offered amount                                |
//! | 16 .. 24   | wanted amount                                 |
//! | 24 .. 32   | time of creation                              |
//! | 32         | status: 0 created, 1 executed, 2 cancelled    |
//! | 33         | kind: 0 market, 1 limit                       |
//! | 34 .. 42   | bits of the limit price, 0 for a market order |
//! | 42         | length of the owner's identity, at most 29    |
//! | then       | the owner's bytes                             |
//! | then 8     | length of the offered currency in bytes       |
//! | then       | the offered currency                          |
//! | the rest   | the wanted currency                           |

use crate::identity::Identity;
use crate::order::{OrderType, OrderView, SwapOrder, SwapStatus};
use vstd::bytes::{
    lemma_auto_spec_u64_to_from_le_bytes, spec_u64_from_le_bytes, spec_u64_to_le_bytes,
    u64_from_le_bytes, u64_to_le_bytes,
};
use vstd::prelude::*;
use vstd::slice::{slice_subrange, slice_to_vec};
use vstd::utf8::{
    decode_utf8, decode_utf8_encode_utf8, encode_utf8, encode_utf8_decode_utf8,
    encode_utf8_valid_utf8, is_ascii_chars_encode_utf8, valid_utf8,
};

verus! {

/// The length of the fixed part of a record, up to and including the length
/// of the owner's identity.
pub const HEADER_LEN: usize = 43;

/// The byte that stands for a status.
pub open spec fn status_tag(status: SwapStatus) -> u8 {
    match status {
        SwapStatus::Created => 0,
        SwapStatus::Executed => 1,
        SwapStatus::Cancelled => 2,
    }
}

/// The byte that stands for the kind of an order.
pub open spec fn kind_tag(order_type: OrderType) -> u8 {
    match order_type {
        OrderType::Market => 0,
        OrderType::Limit { .. } => 1,
    }
}

/// What the price field of a record holds.
pub open spec fn price_field(order_type: OrderType) -> u64 {
    match order_type {
        OrderType::Market => 0,
        OrderType::Limit { price_bits } => price_bits,
    }
}

/// The fixed part of the record of an order.
pub open spec fn encode_header(order: OrderView) -> Seq<u8> {
    spec_u64_to_le_bytes(order.id) + spec_u64_to_le_bytes(order.from_amount)
        + spec_u64_to_le_bytes(order.to_amount) + spec_u64_to_le_bytes(order.created_at)
        + seq![status_tag(order.status), kind_tag(order.order_type)] + spec_u64_to_le_bytes(
        price_field(order.order_type),
    ) + seq![order.owner.len() as u8]
}

/// The record of an order.
pub open spec fn encode_order(order: OrderView) -> Seq<u8> {
    let offered = encode_utf8(order.from_currency);
    encode_header(order) + order.owner + spec_u64_to_le_bytes(offered.len() as u64) + offered
        + encode_utf8(order.to_currency)
}

/// The order that a record holds, if the bytes are a record.
pub open spec fn decode_order(bytes: Seq<u8>) -> Option<OrderView> {
    if bytes.len() < 43 {
        None
    } else {
        let owner_len = bytes[42] as int;
        if owner_len > 29 || bytes.len() < 51 + owner_len {
            None
        } else {
            let offered_len = spec_u64_from_le_bytes(bytes.subrange(43 + owner_len, 51 + owner_len));
            if bytes.len() - (51 + owner_len) < offered_len {
                None
            } else {
                let offered = bytes.subrange(51 + owner_len, 51 + owner_len + offered_len);
                let wanted = bytes.subrange(51 + owner_len + offered_len, bytes.len() as int);
                if bytes[32] > 2 || bytes[33] > 1 || !valid_utf8(offered) || !valid_utf8(wanted) {
                    None
                } else {
                    Some(
                        OrderView {
                            id: spec_u64_from_le_bytes(bytes.subrange(0, 8)),
                            owner: bytes.subrange(43, 43 + owner_len),
                            from_currency: decode_utf8(offered),
                            to_currency: decode_utf8(wanted),
                            from_amount: spec_u64_from_le_bytes(bytes.subrange(8, 16)),
                            to_amount: spec_u64_from_le_bytes(bytes.subrange(16, 24)),
                            order_type: if bytes[33] == 0 {
                                OrderType::Market
                            } else {
                                OrderType::Limit {
                                    price_bits: spec_u64_from_le_bytes(bytes.subrange(34, 42)),
                                }
                            },
                            created_at: spec_u64_from_le_bytes(bytes.subrange(24, 32)),
                            status: if bytes[32] == 0 {
                                SwapStatus::Created
                            } else if bytes[32] == 1 {
                                SwapStatus::Executed
                            } else {
                                SwapStatus::Cancelled
                            },
                        },
                    )
                }
            }
        }
    }
}

/// An order can be written into a record when its owner is an identity and
/// the length of its offered currency fits the length field.
pub open spec fn recordable(order: OrderView) -> bool {
    order.owner.len() <= 29 && encode_utf8(order.from_currency).len() <= u64::MAX
}

/// Reading a record gives back the order that was written into it.
pub proof fn lemma_decode_encode(order: OrderView)
    requires
        recordable(order),
    ensures
        decode_order(encode_order(order)) == Some(order),
{
    lemma_auto_spec_u64_to_from_le_bytes();
    encode_utf8_valid_utf8(order.from_currency);
    encode_utf8_valid_utf8(order.to_currency);
    encode_utf8_decode_utf8(order.from_currency);
    encode_utf8_decode_utf8(order.to_currency);
    let offered = encode_utf8(order.from_currency);
    let wanted = encode_utf8(order.to_currency);
    let header = encode_header(order);
    let bytes = encode_order(order);
    let owner_len = order.owner.len() as int;
    assert(header.len() == 43);
    assert(bytes.len() == 51 + owner_len + offered.len() + wanted.len());
    assert(bytes[42] == order.owner.len() as u8);
    assert(bytes[32] == status_tag(order.status));
    assert(bytes[33] == kind_tag(order.order_type));
    assert(bytes.subrange(0, 8) =~= spec_u64_to_le_bytes(order.id));
    assert(bytes.subrange(8, 16) =~= spec_u64_to_le_bytes(order.from_amount));
    assert(bytes.subrange(16, 24) =~= spec_u64_to_le_bytes(order.to_amount));
    assert(bytes.subrange(24, 32) =~= spec_u64_to_le_bytes(order.created_at));
    assert(bytes.subrange(34, 42) =~= spec_u64_to_le_bytes(price_field(order.order_type)));
    assert(bytes.subrange(43, 43 + owner_len) =~= order.owner);
    assert(bytes.subrange(43 + owner_len, 51 + owner_len) =~= spec_u64_to_le_bytes(
        offered.len() as u64,
    ));
    assert(bytes.subrange(51 + owner_len, 51 + owner_len + offered.len()) =~= offered);
    assert(bytes.subrange(51 + owner_len + offered.len(), bytes.len() as int) =~= wanted);
    assert(decode_order(bytes).unwrap() =~= order);
}

/// The stable map writes the length of a value in 32 bits, so the record of
/// an order that is to be stored must be no longer than that.
pub open spec fn fits_record(order: OrderView) -> bool {
    encode_order(order).len() <= u32::MAX
}

/// The record of the order that a record holds is as long as that record.
pub proof fn lemma_record_len(bytes: Seq<u8>)
    requires
        decode_order(bytes).is_some(),
    ensures
        encode_order(decode_order(bytes).unwrap()).len() == bytes.len(),
{
    lemma_auto_spec_u64_to_from_le_bytes();
    let owner_len = bytes[42] as int;
    let offered_len = spec_u64_from_le_bytes(bytes.subrange(43 + owner_len, 51 + owner_len));
    decode_utf8_encode_utf8(bytes.subrange(51 + owner_len, 51 + owner_len + offered_len));
    decode_utf8_encode_utf8(bytes.subrange(51 + owner_len + offered_len, bytes.len() as int));
}

/// The record of an order is as long in one status as in another.
pub proof fn lemma_status_keeps_len(order: OrderView, status: SwapStatus)
    ensures
        encode_order(order.with_status(status)).len() == encode_order(order).len(),
{
    lemma_auto_spec_u64_to_from_le_bytes();
}

/// The record of a well-formed order is at most 86 bytes long: its
/// currencies are three bytes each.
pub proof fn lemma_well_formed_fits(order: OrderView)
    requires
        order.well_formed(),
    ensures
        encode_order(order).len() <= 86,
        fits_record(order),
{
    lemma_auto_spec_u64_to_from_le_bytes();
    is_ascii_chars_encode_utf8(order.from_currency);
    is_ascii_chars_encode_utf8(order.to_currency);
}

/// `String::from_utf8`: the text that the bytes spell in UTF-8, or nothing
/// where they are not valid UTF-8.
#[verifier::external_body]
fn text_from_utf8(bytes: Vec<u8>) -> (text: Option<String>)
    ensures
        valid_utf8(bytes@) ==> text.is_some() && text.unwrap()@ == decode_utf8(bytes@),
        !valid_utf8(bytes@) ==> text.is_none(),
{
    String::from_utf8(bytes).ok()
}

impl SwapOrder {
    /// The record of the order.
    pub fn to_bytes(&self) -> (bytes: Vec<u8>)
        ensures
            bytes@ == encode_order(self@),
            recordable(self@),
    {
        proof {
            lemma_auto_spec_u64_to_from_le_bytes();
        }
        let mut bytes = u64_to_le_bytes(self.id);
        bytes.extend_from_slice(u64_to_le_bytes(self.from_amount).as_slice());
        bytes.extend_from_slice(u64_to_le_bytes(self.to_amount).as_slice());
        bytes.extend_from_slice(u64_to_le_bytes(self.created_at).as_slice());
        bytes.push(
            match self.status {
                SwapStatus::Created => 0,
                SwapStatus::Executed => 1,
                SwapStatus::Cancelled => 2,
            },
        );
        match self.order_type {
            OrderType::Market => {
                bytes.push(0);
                bytes.extend_from_slice(u64_to_le_bytes(0).as_slice());
            },
            OrderType::Limit { price_bits } => {
                bytes.push(1);
                bytes.extend_from_slice(u64_to_le_bytes(price_bits).as_slice());
            },
        }
        let owner = self.owner.as_slice();
        bytes.push(owner.len() as u8);
        assert(bytes@ =~= encode_header(self@));
        bytes.extend_from_slice(owner);
        let offered = self.from_currency.as_str().as_bytes();
        bytes.extend_from_slice(u64_to_le_bytes(offered.len() as u64).as_slice());
        bytes.extend_from_slice(offered);
        bytes.extend_from_slice(self.to_currency.as_str().as_bytes());
        assert(bytes@ =~= encode_order(self@));
        bytes
    }

    /// The order that a record holds, or nothing where the bytes are not a
    /// record.
    pub fn from_bytes(bytes: &[u8]) -> (order: Option<SwapOrder>)
        ensures
            match decode_order(bytes@) {
                Some(held) => order.is_some() && order.unwrap()@ == held,
                None => order.is_none(),
            },
    {
        if bytes.len() < HEADER_LEN {
            return None;
        }
        let owner_len = bytes[42] as usize;
        if owner_len > 29 || bytes.len() < 51 + owner_len {
            return None;
        }
        let offered_len = u64_from_le_bytes(slice_subrange(bytes, 43 + owner_len, 51 + owner_len));
        if ((bytes.len() - (51 + owner_len)) as u64) < offered_len {
            return None;
        }
        let offered_end = 51 + owner_len + offered_len as usize;
        if bytes[32] > 2 || bytes[33] > 1 {
            return None;
        }
        let offered = text_from_utf8(slice_to_vec(slice_subrange(bytes, 51 + owner_len, offered_end)));
        let wanted = text_from_utf8(slice_to_vec(slice_subrange(bytes, offered_end, bytes.len())));
        let owner = Identity::from_slice(slice_subrange(bytes, 43, 43 + owner_len));
        match (owner, offered, wanted) {
            (Some(owner), Some(from_currency), Some(to_currency)) => Some(
                SwapOrder {
                    id: u64_from_le_bytes(slice_subrange(bytes, 0, 8)),
                    owner,
                    from_currency,
                    to_currency,
                    from_amount: u64_from_le_bytes(slice_subrange(bytes, 8, 16)),
                    to_amount: u64_from_le_bytes(slice_subrange(bytes, 16, 24)),
                    order_type: if bytes[33] == 0 {
                        OrderType::Market
                    } else {
                        OrderType::Limit {
                            price_bits: u64_from_le_bytes(slice_subrange(bytes, 34, 42)),
                        }
                    },
                    created_at: u64_from_le_bytes(slice_subrange(bytes, 24, 32)),
                    status: if bytes[32] == 0 {
                        SwapStatus::Created
                    } else if bytes[32] == 1 {
                        SwapStatus::Executed
                    } else {
                        SwapStatus::Cancelled
                    },
                },
            ),
            _ => None,
        }
    }
}

} // verus!
