//! The order record whose hash is the order id, in the form the quoter
//! builds it before an order is opened (without a creation time).
use vstd::prelude::*;
use crate::bytes::{
    append_be, be_bytes, extend_bytes, lemma_be_bytes_injective, lemma_be_bytes_len,
    lemma_pow256_values,
};
use crate::bytes::{be_value, lemma_be_bytes_of_be_value, lemma_be_value_of_be_bytes};
use crate::hashing::{keccak256, keccak256_digest};

verus! {

broadcast use vstd::array::group_array_axioms;

/// The fields of an order that its id commits to.
#[derive(Debug, Clone, Copy, PartialEq, Eq)]
pub struct OrderData {
    pub version: u16,
    pub sender: [u8; 32],
    pub nonce: u64,
    pub origin_chain_id: u32,
    pub dest_chain_id: u32,
    pub fill_deadline: u64,
    pub token_in: [u8; 32],
    pub token_out: [u8; 32],
    pub amount_in: u128,
    pub amount_out: u128,
    pub recipient: [u8; 32],
    pub solver: [u8; 32],
}

impl OrderData {
    /// The byte string that is hashed into the order id: every field in
    /// declaration order, integers big-endian.
    pub open spec fn encoding(self) -> Seq<u8> {
        be_bytes(self.version as nat, 2) + self.sender@ + be_bytes(self.nonce as nat, 8)
            + be_bytes(self.origin_chain_id as nat, 4) + be_bytes(self.dest_chain_id as nat, 4)
            + be_bytes(self.fill_deadline as nat, 8) + self.token_in@ + self.token_out@ + be_bytes(
            self.amount_in as nat,
            16,
        ) + be_bytes(self.amount_out as nat, 16) + self.recipient@ + self.solver@
    }

    /// Encodes the order data as bytes for hashing (218 bytes).
    pub fn encode(&self) -> (encoded: Vec<u8>)
        ensures
            encoded@ == self.encoding(),
            encoded@.len() == 218,
            encoding_layout(encoded@, *self),
    {
        let mut encoded: Vec<u8> = Vec::with_capacity(206);
        append_be(&mut encoded, self.version as u128, 2);
        extend_bytes(&mut encoded, &self.sender);
        append_be(&mut encoded, self.nonce as u128, 8);
        append_be(&mut encoded, self.origin_chain_id as u128, 4);
        append_be(&mut encoded, self.dest_chain_id as u128, 4);
        append_be(&mut encoded, self.fill_deadline as u128, 8);
        extend_bytes(&mut encoded, &self.token_in);
        extend_bytes(&mut encoded, &self.token_out);
        append_be(&mut encoded, self.amount_in, 16);
        append_be(&mut encoded, self.amount_out, 16);
        extend_bytes(&mut encoded, &self.recipient);
        extend_bytes(&mut encoded, &self.solver);
        proof {
            lemma_be_bytes_len(self.version as nat, 2);
            lemma_be_bytes_len(self.nonce as nat, 8);
            lemma_be_bytes_len(self.origin_chain_id as nat, 4);
            lemma_be_bytes_len(self.dest_chain_id as nat, 4);
            lemma_be_bytes_len(self.fill_deadline as nat, 8);
            lemma_be_bytes_len(self.amount_in as nat, 16);
            lemma_be_bytes_len(self.amount_out as nat, 16);
            assert(self.sender@.len() == 32);
            assert(self.token_in@.len() == 32);
            assert(self.token_out@.len() == 32);
            assert(self.recipient@.len() == 32);
            assert(self.solver@.len() == 32);
            assert(encoded@ =~= self.encoding());
            law_encoding_layout(*self);
        }
        encoded
    }

    /// The order id: the Keccak-256 digest of the encoding.
    pub fn compute_order_id(&self) -> (id: [u8; 32])
        ensures
            id@ == keccak256_digest(self.encoding()),
            forall|e: Seq<u8>| #[trigger] encoding_layout(e, *self) ==> id@ == keccak256_digest(e),
    {
        let encoded = self.encode();
        proof {
            assert forall|e: Seq<u8>| #[trigger] encoding_layout(e, *self) implies e == self.encoding() by {
                law_encoding_is_the_layout(*self, e);
            }
        }
        keccak256(encoded.as_slice())
    }
}

/// Two orders that differ in any field have different encodings, so the id
/// commits to every field (up to a Keccak-256 collision).
pub proof fn law_encoding_is_injective(a: OrderData, b: OrderData)
    requires
        a.encoding() == b.encoding(),
    ensures
        a == b,
{
    let ea = a.encoding();
    let eb = b.encoding();
    lemma_be_bytes_len(a.version as nat, 2);
    lemma_be_bytes_len(b.version as nat, 2);
    lemma_be_bytes_len(a.nonce as nat, 8);
    lemma_be_bytes_len(b.nonce as nat, 8);
    lemma_be_bytes_len(a.origin_chain_id as nat, 4);
    lemma_be_bytes_len(b.origin_chain_id as nat, 4);
    lemma_be_bytes_len(a.dest_chain_id as nat, 4);
    lemma_be_bytes_len(b.dest_chain_id as nat, 4);
    lemma_be_bytes_len(a.fill_deadline as nat, 8);
    lemma_be_bytes_len(b.fill_deadline as nat, 8);
    lemma_be_bytes_len(a.amount_in as nat, 16);
    lemma_be_bytes_len(b.amount_in as nat, 16);
    lemma_be_bytes_len(a.amount_out as nat, 16);
    lemma_be_bytes_len(b.amount_out as nat, 16);
    lemma_pow256_values();
    assert(ea.subrange(0, 2) =~= be_bytes(a.version as nat, 2));
    assert(eb.subrange(0, 2) =~= be_bytes(b.version as nat, 2));
    lemma_be_bytes_injective(a.version as nat, b.version as nat, 2);
    assert(ea.subrange(2, 34) =~= a.sender@);
    assert(eb.subrange(2, 34) =~= b.sender@);
    assert(ea.subrange(34, 42) =~= be_bytes(a.nonce as nat, 8));
    assert(eb.subrange(34, 42) =~= be_bytes(b.nonce as nat, 8));
    lemma_be_bytes_injective(a.nonce as nat, b.nonce as nat, 8);
    assert(ea.subrange(42, 46) =~= be_bytes(a.origin_chain_id as nat, 4));
    assert(eb.subrange(42, 46) =~= be_bytes(b.origin_chain_id as nat, 4));
    lemma_be_bytes_injective(a.origin_chain_id as nat, b.origin_chain_id as nat, 4);
    assert(ea.subrange(46, 50) =~= be_bytes(a.dest_chain_id as nat, 4));
    assert(eb.subrange(46, 50) =~= be_bytes(b.dest_chain_id as nat, 4));
    lemma_be_bytes_injective(a.dest_chain_id as nat, b.dest_chain_id as nat, 4);
    assert(ea.subrange(50, 58) =~= be_bytes(a.fill_deadline as nat, 8));
    assert(eb.subrange(50, 58) =~= be_bytes(b.fill_deadline as nat, 8));
    lemma_be_bytes_injective(a.fill_deadline as nat, b.fill_deadline as nat, 8);
    assert(ea.subrange(58, 90) =~= a.token_in@);
    assert(eb.subrange(58, 90) =~= b.token_in@);
    assert(ea.subrange(90, 122) =~= a.token_out@);
    assert(eb.subrange(90, 122) =~= b.token_out@);
    assert(ea.subrange(122, 138) =~= be_bytes(a.amount_in as nat, 16));
    assert(eb.subrange(122, 138) =~= be_bytes(b.amount_in as nat, 16));
    lemma_be_bytes_injective(a.amount_in as nat, b.amount_in as nat, 16);
    assert(ea.subrange(138, 154) =~= be_bytes(a.amount_out as nat, 16));
    assert(eb.subrange(138, 154) =~= be_bytes(b.amount_out as nat, 16));
    lemma_be_bytes_injective(a.amount_out as nat, b.amount_out as nat, 16);
    assert(ea.subrange(154, 186) =~= a.recipient@);
    assert(eb.subrange(154, 186) =~= b.recipient@);
    assert(ea.subrange(186, 218) =~= a.solver@);
    assert(eb.subrange(186, 218) =~= b.solver@);
    assert(a.sender@ =~= b.sender@);
    assert(a.sender =~= b.sender);
    assert(a.token_in@ =~= b.token_in@);
    assert(a.token_in =~= b.token_in);
    assert(a.token_out@ =~= b.token_out@);
    assert(a.token_out =~= b.token_out);
    assert(a.recipient@ =~= b.recipient@);
    assert(a.recipient =~= b.recipient);
    assert(a.solver@ =~= b.solver@);
    assert(a.solver =~= b.solver);
}


/// `e` holds the fields of `o` at their offsets, in declaration order
/// (version, sender, nonce, origin chain id, dest chain id, fill deadline, token in, token out, amount in, amount out, recipient, solver), each integer big-endian in as many bytes as its type
/// has, 218 bytes in all.
pub open spec fn encoding_layout(e: Seq<u8>, o: OrderData) -> bool {
    &&& e.len() == 218
    &&& be_value(e.subrange(0, 2)) == o.version
    &&& e.subrange(2, 34) == o.sender@
    &&& be_value(e.subrange(34, 42)) == o.nonce
    &&& be_value(e.subrange(42, 46)) == o.origin_chain_id
    &&& be_value(e.subrange(46, 50)) == o.dest_chain_id
    &&& be_value(e.subrange(50, 58)) == o.fill_deadline
    &&& e.subrange(58, 90) == o.token_in@
    &&& e.subrange(90, 122) == o.token_out@
    &&& be_value(e.subrange(122, 138)) == o.amount_in
    &&& be_value(e.subrange(138, 154)) == o.amount_out
    &&& e.subrange(154, 186) == o.recipient@
    &&& e.subrange(186, 218) == o.solver@
}

/// The encoding that is hashed into the order id places every field at its
/// offset in declaration order (see `encoding_layout`): in particular the
/// input token before the output token.
pub proof fn law_encoding_layout(o: OrderData)
    ensures
        encoding_layout(o.encoding(), o),
{
    let e = o.encoding();
    lemma_pow256_values();
    lemma_be_bytes_len(o.version as nat, 2);
    lemma_be_value_of_be_bytes(o.version as nat, 2);
    lemma_be_bytes_len(o.nonce as nat, 8);
    lemma_be_value_of_be_bytes(o.nonce as nat, 8);
    lemma_be_bytes_len(o.origin_chain_id as nat, 4);
    lemma_be_value_of_be_bytes(o.origin_chain_id as nat, 4);
    lemma_be_bytes_len(o.dest_chain_id as nat, 4);
    lemma_be_value_of_be_bytes(o.dest_chain_id as nat, 4);
    lemma_be_bytes_len(o.fill_deadline as nat, 8);
    lemma_be_value_of_be_bytes(o.fill_deadline as nat, 8);
    lemma_be_bytes_len(o.amount_in as nat, 16);
    lemma_be_value_of_be_bytes(o.amount_in as nat, 16);
    lemma_be_bytes_len(o.amount_out as nat, 16);
    lemma_be_value_of_be_bytes(o.amount_out as nat, 16);
    assert(e.subrange(0, 2) =~= be_bytes(o.version as nat, 2));
    assert(e.subrange(2, 34) =~= o.sender@);
    assert(e.subrange(34, 42) =~= be_bytes(o.nonce as nat, 8));
    assert(e.subrange(42, 46) =~= be_bytes(o.origin_chain_id as nat, 4));
    assert(e.subrange(46, 50) =~= be_bytes(o.dest_chain_id as nat, 4));
    assert(e.subrange(50, 58) =~= be_bytes(o.fill_deadline as nat, 8));
    assert(e.subrange(58, 90) =~= o.token_in@);
    assert(e.subrange(90, 122) =~= o.token_out@);
    assert(e.subrange(122, 138) =~= be_bytes(o.amount_in as nat, 16));
    assert(e.subrange(138, 154) =~= be_bytes(o.amount_out as nat, 16));
    assert(e.subrange(154, 186) =~= o.recipient@);
    assert(e.subrange(186, 218) =~= o.solver@);
}

/// The byte string hashed into the order id is the only one with the
/// fields of the order at their offsets: any `e` laid out as
/// `encoding_layout` says is the encoding, so the order id is its
/// Keccak-256 digest.
pub proof fn law_encoding_is_the_layout(o: OrderData, e: Seq<u8>)
    requires
        encoding_layout(e, o),
    ensures
        e == o.encoding(),
{
    law_encoding_layout(o);
    let f = o.encoding();
    lemma_be_bytes_of_be_value(f.subrange(0, 2));
    lemma_be_bytes_of_be_value(f.subrange(34, 42));
    lemma_be_bytes_of_be_value(f.subrange(42, 46));
    lemma_be_bytes_of_be_value(f.subrange(46, 50));
    lemma_be_bytes_of_be_value(f.subrange(50, 58));
    lemma_be_bytes_of_be_value(f.subrange(122, 138));
    lemma_be_bytes_of_be_value(f.subrange(138, 154));
    lemma_be_bytes_of_be_value(e.subrange(0, 2));
    lemma_be_bytes_of_be_value(e.subrange(34, 42));
    lemma_be_bytes_of_be_value(e.subrange(42, 46));
    lemma_be_bytes_of_be_value(e.subrange(46, 50));
    lemma_be_bytes_of_be_value(e.subrange(50, 58));
    lemma_be_bytes_of_be_value(e.subrange(122, 138));
    lemma_be_bytes_of_be_value(e.subrange(138, 154));
    assert(e =~= f);
}

} // verus!
