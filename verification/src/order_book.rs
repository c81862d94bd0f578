//! The order record of the on-chain order book, whose hash is the order id.
use vstd::prelude::*;
use crate::bytes::{append_be, append_le, be_bytes, extend_bytes, le_bytes, lemma_be_bytes_len};
use crate::bytes::{be_value, lemma_be_bytes_of_be_value, lemma_be_value_of_be_bytes, lemma_pow256_values};
use crate::bytes::{le_value, lemma_le_bytes_len, lemma_le_value_of_le_bytes};
use crate::hashing::{keccak256, keccak256_digest};

verus! {

broadcast use vstd::array::group_array_axioms;

/// An order as the order book stores it (the creation time is part of it).
#[derive(Debug, Clone, Copy, PartialEq, Eq)]
pub struct OrderData {
    pub version: u16,
    pub sender: [u8; 32],
    pub nonce: u64,
    pub origin_chain_id: u32,
    pub dest_chain_id: u32,
    pub created_at: u64,
    pub fill_deadline: u64,
    pub token_in: [u8; 32],
    pub token_out: [u8; 32],
    pub amount_in: u128,
    pub amount_out: u128,
    pub recipient: [u8; 32],
    pub solver: [u8; 32],
}

impl OrderData {
    /// The byte string that is hashed into the order id: every field in
    /// declaration order, integers big-endian.
    pub open spec fn encoding(self) -> Seq<u8> {
        be_bytes(self.version as nat, 2) + self.sender@ + be_bytes(self.nonce as nat, 8)
            + be_bytes(self.origin_chain_id as nat, 4) + be_bytes(self.dest_chain_id as nat, 4)
            + be_bytes(self.created_at as nat, 8) + be_bytes(self.fill_deadline as nat, 8)
            + self.token_in@ + self.token_out@ + be_bytes(self.amount_in as nat, 16) + be_bytes(
            self.amount_out as nat,
            16,
        ) + self.recipient@ + self.solver@
    }

    /// Encodes the order data as bytes for hashing (226 bytes).
    pub fn encode(&self) -> (encoded: Vec<u8>)
        ensures
            encoded@ == self.encoding(),
            encoded@.len() == 226,
            encoding_layout(encoded@, *self),
    {
        let mut encoded: Vec<u8> = Vec::with_capacity(214);
        append_be(&mut encoded, self.version as u128, 2);
        extend_bytes(&mut encoded, &self.sender);
        append_be(&mut encoded, self.nonce as u128, 8);
        append_be(&mut encoded, self.origin_chain_id as u128, 4);
        append_be(&mut encoded, self.dest_chain_id as u128, 4);
        append_be(&mut encoded, self.created_at as u128, 8);
        append_be(&mut encoded, self.fill_deadline as u128, 8);
        extend_bytes(&mut encoded, &self.token_in);
        extend_bytes(&mut encoded, &self.token_out);
        append_be(&mut encoded, self.amount_in, 16);
        append_be(&mut encoded, self.amount_out, 16);
        extend_bytes(&mut encoded, &self.recipient);
        extend_bytes(&mut encoded, &self.solver);
        proof {
            lemma_be_bytes_len(self.version as nat, 2);
            lemma_be_bytes_len(self.nonce as nat, 8);
            lemma_be_bytes_len(self.origin_chain_id as nat, 4);
            lemma_be_bytes_len(self.dest_chain_id as nat, 4);
            lemma_be_bytes_len(self.created_at as nat, 8);
            lemma_be_bytes_len(self.fill_deadline as nat, 8);
            lemma_be_bytes_len(self.amount_in as nat, 16);
            lemma_be_bytes_len(self.amount_out as nat, 16);
            assert(self.sender@.len() == 32);
            assert(self.token_in@.len() == 32);
            assert(self.token_out@.len() == 32);
            assert(self.recipient@.len() == 32);
            assert(self.solver@.len() == 32);
            assert(encoded@ =~= self.encoding());
            law_encoding_layout(*self);
        }
        encoded
    }

    /// The Borsh form the Solana program takes: every field in declaration
    /// order, integers little-endian.
    pub open spec fn borsh(self) -> Seq<u8> {
        le_bytes(self.version as nat, 2) + self.sender@ + le_bytes(self.nonce as nat, 8)
            + le_bytes(self.origin_chain_id as nat, 4) + le_bytes(self.dest_chain_id as nat, 4)
            + le_bytes(self.created_at as nat, 8) + le_bytes(self.fill_deadline as nat, 8)
            + self.token_in@ + self.token_out@ + le_bytes(self.amount_in as nat, 16) + le_bytes(
            self.amount_out as nat,
            16,
        ) + self.recipient@ + self.solver@
    }

    /// Appends the Borsh form to `out`.
    pub fn serialize(&self, out: &mut Vec<u8>)
        ensures
            final(out)@ == old(out)@ + self.borsh(),
    {
        append_le(out, self.version as u128, 2);
        extend_bytes(out, &self.sender);
        append_le(out, self.nonce as u128, 8);
        append_le(out, self.origin_chain_id as u128, 4);
        append_le(out, self.dest_chain_id as u128, 4);
        append_le(out, self.created_at as u128, 8);
        append_le(out, self.fill_deadline as u128, 8);
        extend_bytes(out, &self.token_in);
        extend_bytes(out, &self.token_out);
        append_le(out, self.amount_in, 16);
        append_le(out, self.amount_out, 16);
        extend_bytes(out, &self.recipient);
        extend_bytes(out, &self.solver);
        proof {
            assert(final(out)@ =~= old(out)@ + self.borsh());
        }
    }

    /// The order id: the Keccak-256 digest of the encoding.
    pub fn compute_order_id(&self) -> (id: [u8; 32])
        ensures
            id@ == keccak256_digest(self.encoding()),
            forall|e: Seq<u8>| #[trigger] encoding_layout(e, *self) ==> id@ == keccak256_digest(e),
    {
        let encoded = self.encode();
        proof {
            assert forall|e: Seq<u8>| #[trigger] encoding_layout(e, *self) implies e == self.encoding() by {
                law_encoding_is_the_layout(*self, e);
            }
        }
        keccak256(encoded.as_slice())
    }
}


/// `e` holds the fields of `o` at their offsets, in declaration order
/// (version, sender, nonce, origin chain id, dest chain id, created at, fill deadline, token in, token out, amount in, amount out, recipient, solver), each integer big-endian in as many bytes as its type
/// has, 226 bytes in all.
pub open spec fn encoding_layout(e: Seq<u8>, o: OrderData) -> bool {
    &&& e.len() == 226
    &&& be_value(e.subrange(0, 2)) == o.version
    &&& e.subrange(2, 34) == o.sender@
    &&& be_value(e.subrange(34, 42)) == o.nonce
    &&& be_value(e.subrange(42, 46)) == o.origin_chain_id
    &&& be_value(e.subrange(46, 50)) == o.dest_chain_id
    &&& be_value(e.subrange(50, 58)) == o.created_at
    &&& be_value(e.subrange(58, 66)) == o.fill_deadline
    &&& e.subrange(66, 98) == o.token_in@
    &&& e.subrange(98, 130) == o.token_out@
    &&& be_value(e.subrange(130, 146)) == o.amount_in
    &&& be_value(e.subrange(146, 162)) == o.amount_out
    &&& e.subrange(162, 194) == o.recipient@
    &&& e.subrange(194, 226) == o.solver@
}

/// The encoding that is hashed into the order id places every field at its
/// offset in declaration order (see `encoding_layout`): in particular the
/// input token before the output token.
pub proof fn law_encoding_layout(o: OrderData)
    ensures
        encoding_layout(o.encoding(), o),
{
    let e = o.encoding();
    lemma_pow256_values();
    lemma_be_bytes_len(o.version as nat, 2);
    lemma_be_value_of_be_bytes(o.version as nat, 2);
    lemma_be_bytes_len(o.nonce as nat, 8);
    lemma_be_value_of_be_bytes(o.nonce as nat, 8);
    lemma_be_bytes_len(o.origin_chain_id as nat, 4);
    lemma_be_value_of_be_bytes(o.origin_chain_id as nat, 4);
    lemma_be_bytes_len(o.dest_chain_id as nat, 4);
    lemma_be_value_of_be_bytes(o.dest_chain_id as nat, 4);
    lemma_be_bytes_len(o.created_at as nat, 8);
    lemma_be_value_of_be_bytes(o.created_at as nat, 8);
    lemma_be_bytes_len(o.fill_deadline as nat, 8);
    lemma_be_value_of_be_bytes(o.fill_deadline as nat, 8);
    lemma_be_bytes_len(o.amount_in as nat, 16);
    lemma_be_value_of_be_bytes(o.amount_in as nat, 16);
    lemma_be_bytes_len(o.amount_out as nat, 16);
    lemma_be_value_of_be_bytes(o.amount_out as nat, 16);
    assert(e.subrange(0, 2) =~= be_bytes(o.version as nat, 2));
    assert(e.subrange(2, 34) =~= o.sender@);
    assert(e.subrange(34, 42) =~= be_bytes(o.nonce as nat, 8));
    assert(e.subrange(42, 46) =~= be_bytes(o.origin_chain_id as nat, 4));
    assert(e.subrange(46, 50) =~= be_bytes(o.dest_chain_id as nat, 4));
    assert(e.subrange(50, 58) =~= be_bytes(o.created_at as nat, 8));
    assert(e.subrange(58, 66) =~= be_bytes(o.fill_deadline as nat, 8));
    assert(e.subrange(66, 98) =~= o.token_in@);
    assert(e.subrange(98, 130) =~= o.token_out@);
    assert(e.subrange(130, 146) =~= be_bytes(o.amount_in as nat, 16));
    assert(e.subrange(146, 162) =~= be_bytes(o.amount_out as nat, 16));
    assert(e.subrange(162, 194) =~= o.recipient@);
    assert(e.subrange(194, 226) =~= o.solver@);
}

/// The byte string hashed into the order id is the only one with the
/// fields of the order at their offsets: any `e` laid out as
/// `encoding_layout` says is the encoding, so the order id is its
/// Keccak-256 digest.
pub proof fn law_encoding_is_the_layout(o: OrderData, e: Seq<u8>)
    requires
        encoding_layout(e, o),
    ensures
        e == o.encoding(),
{
    law_encoding_layout(o);
    let f = o.encoding();
    lemma_be_bytes_of_be_value(f.subrange(0, 2));
    lemma_be_bytes_of_be_value(f.subrange(34, 42));
    lemma_be_bytes_of_be_value(f.subrange(42, 46));
    lemma_be_bytes_of_be_value(f.subrange(46, 50));
    lemma_be_bytes_of_be_value(f.subrange(50, 58));
    lemma_be_bytes_of_be_value(f.subrange(58, 66));
    lemma_be_bytes_of_be_value(f.subrange(130, 146));
    lemma_be_bytes_of_be_value(f.subrange(146, 162));
    lemma_be_bytes_of_be_value(e.subrange(0, 2));
    lemma_be_bytes_of_be_value(e.subrange(34, 42));
    lemma_be_bytes_of_be_value(e.subrange(42, 46));
    lemma_be_bytes_of_be_value(e.subrange(46, 50));
    lemma_be_bytes_of_be_value(e.subrange(50, 58));
    lemma_be_bytes_of_be_value(e.subrange(58, 66));
    lemma_be_bytes_of_be_value(e.subrange(130, 146));
    lemma_be_bytes_of_be_value(e.subrange(146, 162));
    assert(e =~= f);
}


/// `b` holds the fields of `o` at their offsets, in declaration order,
/// each integer little-endian in as many bytes as its type has, 226 bytes
/// in all: the Borsh form the Solana program reads.
pub open spec fn borsh_layout(b: Seq<u8>, o: OrderData) -> bool {
    &&& b.len() == 226
    &&& le_value(b.subrange(0, 2)) == o.version
    &&& b.subrange(2, 34) == o.sender@
    &&& le_value(b.subrange(34, 42)) == o.nonce
    &&& le_value(b.subrange(42, 46)) == o.origin_chain_id
    &&& le_value(b.subrange(46, 50)) == o.dest_chain_id
    &&& le_value(b.subrange(50, 58)) == o.created_at
    &&& le_value(b.subrange(58, 66)) == o.fill_deadline
    &&& b.subrange(66, 98) == o.token_in@
    &&& b.subrange(98, 130) == o.token_out@
    &&& le_value(b.subrange(130, 146)) == o.amount_in
    &&& le_value(b.subrange(146, 162)) == o.amount_out
    &&& b.subrange(162, 194) == o.recipient@
    &&& b.subrange(194, 226) == o.solver@
}

/// The Borsh form of an order places every field at its offset in
/// declaration order (see `borsh_layout`): the input token at 66 and the
/// output token at 98, the recipient at 162 and the solver at 194.
pub proof fn law_borsh_layout(o: OrderData)
    ensures
        borsh_layout(o.borsh(), o),
{
    let b = o.borsh();
    lemma_pow256_values();
    lemma_le_bytes_len(o.version as nat, 2);
    lemma_le_value_of_le_bytes(o.version as nat, 2);
    lemma_le_bytes_len(o.nonce as nat, 8);
    lemma_le_value_of_le_bytes(o.nonce as nat, 8);
    lemma_le_bytes_len(o.origin_chain_id as nat, 4);
    lemma_le_value_of_le_bytes(o.origin_chain_id as nat, 4);
    lemma_le_bytes_len(o.dest_chain_id as nat, 4);
    lemma_le_value_of_le_bytes(o.dest_chain_id as nat, 4);
    lemma_le_bytes_len(o.created_at as nat, 8);
    lemma_le_value_of_le_bytes(o.created_at as nat, 8);
    lemma_le_bytes_len(o.fill_deadline as nat, 8);
    lemma_le_value_of_le_bytes(o.fill_deadline as nat, 8);
    lemma_le_bytes_len(o.amount_in as nat, 16);
    lemma_le_value_of_le_bytes(o.amount_in as nat, 16);
    lemma_le_bytes_len(o.amount_out as nat, 16);
    lemma_le_value_of_le_bytes(o.amount_out as nat, 16);
    assert(b.subrange(0, 2) =~= le_bytes(o.version as nat, 2));
    assert(b.subrange(2, 34) =~= o.sender@);
    assert(b.subrange(34, 42) =~= le_bytes(o.nonce as nat, 8));
    assert(b.subrange(42, 46) =~= le_bytes(o.origin_chain_id as nat, 4));
    assert(b.subrange(46, 50) =~= le_bytes(o.dest_chain_id as nat, 4));
    assert(b.subrange(50, 58) =~= le_bytes(o.created_at as nat, 8));
    assert(b.subrange(58, 66) =~= le_bytes(o.fill_deadline as nat, 8));
    assert(b.subrange(66, 98) =~= o.token_in@);
    assert(b.subrange(98, 130) =~= o.token_out@);
    assert(b.subrange(130, 146) =~= le_bytes(o.amount_in as nat, 16));
    assert(b.subrange(146, 162) =~= le_bytes(o.amount_out as nat, 16));
    assert(b.subrange(162, 194) =~= o.recipient@);
    assert(b.subrange(194, 226) =~= o.solver@);
}

} // verus!
