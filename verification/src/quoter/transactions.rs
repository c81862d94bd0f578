//! What the quoter hands a wallet to open an order: the inputs, the parsed
//! addresses, the call data and the results.
use vstd::prelude::*;
use vstd::utf8::encode_utf8;
use crate::bytes::{
    append_be, base58_decode, base58_decoding, base58_error_text, be_bytes, extend_bytes,
    hex_bytes, hex_decode, hex_encode, hex_error_text, hex_text, left_pad_32, lemma_be_bytes_len,
};
use crate::bytes::{append_le, base58_encode, base58_encoding, le_bytes, le_value, read_le};
use crate::bytes::{be_value, lemma_be_value_of_be_bytes, lemma_pow256_mono, lemma_pow256_values, pow256};
use crate::bytes::{lemma_le_bytes_len, lemma_le_value_of_le_bytes};
use crate::hashing::{keccak256, keccak256_digest};
use crate::quoter::api::{api_bytes32, parse_address_to_bytes32};
use crate::text::lowercase;
use crate::quoter::order_id::OrderData;
use crate::solver::asset_store::lemma_hex_bytes_len;

verus! {

broadcast use vstd::array::group_array_axioms;

/// Errors of the transaction builders.
#[derive(Debug, Clone)]
pub enum TransactionBuilderError {
    InvalidAddress(String),
    RpcError(String),
    SerializationError(String),
    AccountParseError,
}

impl TransactionBuilderError {
    /// The error's message.
    pub fn message(&self) -> (text: String)
        ensures
            text@ == builder_error_message(*self),
    {
        match self {
            TransactionBuilderError::InvalidAddress(m) => String::from_str("Invalid address: ").concat(
                m.as_str(),
            ),
            TransactionBuilderError::RpcError(m) => String::from_str("RPC error: ").concat(m.as_str()),
            TransactionBuilderError::SerializationError(m) => String::from_str(
                "Serialization error: ",
            ).concat(m.as_str()),
            TransactionBuilderError::AccountParseError => String::from_str(
                "Failed to parse account data",
            ),
        }
    }
}

pub open spec fn builder_error_message(e: TransactionBuilderError) -> Seq<char> {
    match e {
        TransactionBuilderError::InvalidAddress(m) => "Invalid address: "@ + m@,
        TransactionBuilderError::RpcError(m) => "RPC error: "@ + m@,
        TransactionBuilderError::SerializationError(m) => "Serialization error: "@ + m@,
        TransactionBuilderError::AccountParseError => "Failed to parse account data"@,
    }
}

/// A transaction for an EVM wallet to sign: target, call data and value,
/// as `0x` hexadecimal texts.
#[derive(Debug, Clone)]
pub struct EvmTransaction {
    pub to: String,
    pub data: String,
    pub value: String,
}

/// Result of building an EVM transaction.
#[derive(Debug, Clone)]
pub struct EvmTransactionResult {
    /// The open order transaction.
    pub transaction: EvmTransaction,
    /// Approval transaction if the allowance is insufficient.
    pub approval_transaction: Option<EvmTransaction>,
    /// The computed order id (hex, 32 bytes, with 0x prefix).
    pub order_id: String,
    /// The nonce used in this order.
    pub nonce: u64,
    /// The contract address.
    pub contract_address: String,
}

/// Result of building a transaction on Solana.
#[derive(Debug, Clone)]
pub struct TransactionResult {
    /// The serialized transaction (base64).
    pub transaction: String,
    /// The computed order id (hex, 32 bytes, with 0x prefix).
    pub order_id: String,
    /// The nonce used in this order.
    pub nonce: u64,
    /// The program address.
    pub contract_address: String,
}

/// Input parameters for building an open order transaction.
#[derive(Debug, Clone)]
pub struct OpenOrderInput {
    /// Sender wallet address (EVM hex or Solana base58).
    pub sender_address: String,
    /// Input token address on the origin chain.
    pub token_in: String,
    /// Output token address on the destination chain (hex or base58).
    pub token_out: String,
    /// Amount of input tokens.
    pub amount_in: u64,
    /// Expected amount of output tokens.
    pub amount_out: u128,
    /// Recipient address on the destination chain.
    pub recipient: [u8; 32],
    /// Solver address, or all zeros for any solver.
    pub solver: [u8; 32],
    /// Destination chain id.
    pub dest_chain_id: u32,
    /// Fill deadline (Unix timestamp).
    pub fill_deadline: u64,
}

impl OpenOrderInput {
    /// An input whose recipient is the sender (its 32-byte form, see
    /// `api_bytes32`; all zeros where the sender has none) and with no solver
    /// restriction.
    pub fn new(
        sender_address: String,
        token_in: String,
        token_out: String,
        amount_in: u64,
        amount_out: u128,
        dest_chain_id: u32,
        fill_deadline: u64,
    ) -> (input: Self)
        ensures
            input.sender_address == sender_address,
            input.token_in == token_in,
            input.token_out == token_out,
            input.amount_in == amount_in,
            input.amount_out == amount_out,
            input.recipient@ == match api_bytes32(sender_address@) {
                Ok(b) => b,
                Err(_) => Seq::new(32, |i: int| 0u8),
            },
            input.solver@ == Seq::new(32, |i: int| 0u8),
            input.dest_chain_id == dest_chain_id,
            input.fill_deadline == fill_deadline,
    {
        let recipient = match parse_address_to_bytes32(sender_address.as_str()) {
            Ok(b) => b,
            Err(_) => [0u8; 32],
        };
        let input = Self {
            sender_address,
            token_in,
            token_out,
            amount_in,
            amount_out,
            recipient,
            solver: [0u8; 32],
            dest_chain_id,
            fill_deadline,
        };
        proof {
            assert(api_bytes32(input.sender_address@) is Err ==> input.recipient@ =~= Seq::new(32, |i: int| 0u8));
            assert(input.solver@ =~= Seq::new(32, |i: int| 0u8));
        }
        input
    }

    /// The same input with another recipient.
    pub fn with_recipient(self, recipient: [u8; 32]) -> (input: Self)
        ensures
            input == (OpenOrderInput { recipient, ..self }),
    {
        let mut input = self;
        input.recipient = recipient;
        input
    }

    /// The same input restricted to one solver.
    pub fn with_solver(self, solver: [u8; 32]) -> (input: Self)
        ensures
            input == (OpenOrderInput { solver, ..self }),
    {
        let mut input = self;
        input.solver = solver;
        input
    }
}

/// A text without its `0x` prefix, if it has one.
pub open spec fn strip_0x(text: Seq<char>) -> Seq<char> {
    if text.len() >= 2 && text[0] == '0' && text[1] == 'x' {
        text.subrange(2, text.len() as int)
    } else {
        text
    }
}

/// `text` without its `0x` prefix, if it has one.
pub fn strip_hex_prefix(text: &str) -> (rest: &str)
    ensures
        rest@ == strip_0x(text@),
{
    let n = text.unicode_len();
    if n >= 2 && text.get_char(0) == '0' && text.get_char(1) == 'x' {
        text.substring_char(2, n)
    } else {
        text
    }
}

/// How the EVM builder reads a 32-byte address: after an optional `0x`,
/// 40 hexadecimal digits are an EVM address (left-padded with zeros), 64
/// are the 32 bytes themselves; otherwise the text must be base58 of
/// exactly 32 bytes. `Err` carries the reason.
pub open spec fn evm_bytes32(text: Seq<char>) -> Result<Seq<u8>, Seq<char>> {
    let t = strip_0x(text);
    let b = encode_utf8(t);
    if b.len() == 40 {
        match hex_bytes(b) {
            Some(d) => Ok(Seq::new(12, |i: int| 0u8) + d),
            None => Err(hex_error_text(b)),
        }
    } else if b.len() == 64 {
        match hex_bytes(b) {
            Some(d) => Ok(d),
            None => Err(hex_error_text(b)),
        }
    } else {
        match base58_decoding(b) {
            None => Err(base58_error_text(b)),
            Some(d) => if d.len() == 32 {
                Ok(d)
            } else {
                Err("Cannot parse: "@ + t)
            },
        }
    }
}

/// Parses a 32-byte address for the EVM builder (see `evm_bytes32`).
pub fn parse_bytes32(text: &str) -> (parsed: Result<[u8; 32], TransactionBuilderError>)
    ensures
        match evm_bytes32(text@) {
            Ok(b) => parsed matches Ok(p) && p@ == b,
            Err(m) => parsed matches Err(TransactionBuilderError::InvalidAddress(e)) && e@ == m,
        },
{
    let t = strip_hex_prefix(text);
    let b = t.as_bytes();
    if b.len() == 40 || b.len() == 64 {
        match hex_decode(b) {
            Err(e) => Err(TransactionBuilderError::InvalidAddress(e)),
            Ok(d) => {
                proof {
                    lemma_hex_bytes_len(b@);
                }
                if b.len() == 40 {
                    Ok(left_pad_32(&d))
                } else {
                    let padded = left_pad_32(&d);
                    proof {
                        assert(padded@ =~= d@);
                    }
                    Ok(padded)
                }
            },
        }
    } else {
        match base58_decode(b) {
            Err(e) => Err(TransactionBuilderError::InvalidAddress(e)),
            Ok(d) => {
                if d.len() == 32 {
                    let padded = left_pad_32(&d);
                    proof {
                        assert(padded@ =~= d@);
                    }
                    Ok(padded)
                } else {
                    Err(
                        TransactionBuilderError::InvalidAddress(
                            String::from_str("Cannot parse: ").concat(t),
                        ),
                    )
                }
            },
        }
    }
}

/// How `Pubkey::from_str` reads a Solana address: base58 text of at most 44
/// characters that decodes to exactly 32 bytes.
pub open spec fn solana_pubkey(text: Seq<char>) -> Option<Seq<u8>> {
    let b = encode_utf8(text);
    if b.len() > 44 {
        None
    } else {
        match base58_decoding(b) {
            Some(d) => if d.len() == 32 {
                Some(d)
            } else {
                None
            },
            None => None,
        }
    }
}

/// The 32 bytes of a Solana address, if `text` is one.
pub fn parse_pubkey(text: &str) -> (key: Option<[u8; 32]>)
    ensures
        match solana_pubkey(text@) {
            Some(b) => key matches Some(k) && k@ == b,
            None => key is None,
        },
{
    let b = text.as_bytes();
    if b.len() > 44 {
        return None;
    }
    match base58_decode(b) {
        Ok(d) => if d.len() == 32 {
            let key = left_pad_32(&d);
            proof {
                assert(key@ =~= d@);
            }
            Some(key)
        } else {
            None
        },
        Err(_) => None,
    }
}

/// How the Solana builder reads a 32-byte address: a Solana address first;
/// otherwise, after an optional `0x`, 64 hexadecimal digits are the bytes
/// and 40 an EVM address (left-padded with zeros). `Err` carries the
/// reason.
pub open spec fn svm_bytes32(text: Seq<char>) -> Result<Seq<u8>, Seq<char>> {
    match solana_pubkey(text) {
        Some(k) => Ok(k),
        None => {
            let t = strip_0x(text);
            let b = encode_utf8(t);
            if b.len() == 64 {
                match hex_bytes(b) {
                    Some(d) => Ok(d),
                    None => Err(hex_error_text(b)),
                }
            } else if b.len() == 40 {
                match hex_bytes(b) {
                    Some(d) => Ok(Seq::new(12, |i: int| 0u8) + d),
                    None => Err(hex_error_text(b)),
                }
            } else {
                Err("Cannot parse: "@ + t)
            }
        },
    }
}

/// Parses a 32-byte address for the Solana builder (see `svm_bytes32`).
pub fn parse_bytes32_svm(text: &str) -> (parsed: Result<[u8; 32], TransactionBuilderError>)
    ensures
        match svm_bytes32(text@) {
            Ok(b) => parsed matches Ok(p) && p@ == b,
            Err(m) => parsed matches Err(TransactionBuilderError::InvalidAddress(e)) && e@ == m,
        },
{
    if let Some(key) = parse_pubkey(text) {
        return Ok(key);
    }
    let t = strip_hex_prefix(text);
    let b = t.as_bytes();
    if b.len() == 64 || b.len() == 40 {
        match hex_decode(b) {
            Err(e) => Err(TransactionBuilderError::InvalidAddress(e)),
            Ok(d) => {
                proof {
                    lemma_hex_bytes_len(b@);
                }
                let padded = left_pad_32(&d);
                proof {
                    if b@.len() == 64 {
                        assert(padded@ =~= d@);
                    }
                }
                Ok(padded)
            },
        }
    } else {
        Err(TransactionBuilderError::InvalidAddress(String::from_str("Cannot parse: ").concat(t)))
    }
}

/// How `alloy`'s fixed-size byte strings read hexadecimal text of `n`
/// bytes: an even number of characters, then after an optional `0x` or
/// `0X` exactly `2 * n` hexadecimal digits.
pub open spec fn fixed_hex(text: Seq<char>, n: nat) -> Option<Seq<u8>> {
    let b = encode_utf8(text);
    let d = if b.len() >= 2 && b[0] == 48 && (b[1] == 120 || b[1] == 88) {
        b.subrange(2, b.len() as int)
    } else {
        b
    };
    if b.len() % 2 != 0 || d.len() != 2 * n {
        None
    } else {
        hex_bytes(d)
    }
}

/// How `alloy::primitives::Address::from_str` reads an EVM address.
pub open spec fn evm_address(text: Seq<char>) -> Option<Seq<u8>> {
    fixed_hex(text, 20)
}

/// The text of the error `Address::from_str` reports for a text that is not
/// an address.
pub uninterp spec fn address_error_text(text: Seq<char>) -> Seq<char>;

/// `alloy::primitives::Address::from_str`: the 20 bytes of an EVM address,
/// or the text of the error.
#[verifier::external_body]
pub fn parse_evm_address(text: &str) -> (address: Result<[u8; 20], String>)
    ensures
        match address {
            Ok(a) => evm_address(text@) == Some(a@),
            Err(m) => evm_address(text@) is None && m@ == address_error_text(text@),
        },
{
    text.parse::<alloy::primitives::Address>().map(|a| a.into_array()).map_err(|e| e.to_string())
}

/// The `i`-th four-bit digit of `hash`, most significant first.
pub open spec fn hash_nibble(hash: Seq<u8>, i: int) -> u8 {
    if i % 2 == 0 {
        hash[i / 2] / 16
    } else {
        hash[i / 2] % 16
    }
}

/// A lower-case hexadecimal digit as EIP-55 writes it: a letter in upper
/// case where its digit of the hash is 8 or more, as it is otherwise.
pub open spec fn checksum_char(c: char, nibble: u8) -> char {
    if 'a' <= c && c <= 'f' && nibble >= 8 {
        ((c as int) - 32) as char
    } else {
        c
    }
}

/// The EIP-55 checksummed text of an EVM address: `0x` and the
/// lower-case hexadecimal digits of the address, each letter put in upper
/// case where the digit at its position of the Keccak-256 digest of those
/// digits is 8 or more.
pub open spec fn evm_checksum_text(address: Seq<u8>) -> Seq<char> {
    let h = hex_text(address);
    let hash = keccak256_digest(encode_utf8(h));
    "0x"@ + Seq::new(h.len(), |i: int| checksum_char(h[i], hash_nibble(hash, i)))
}

/// `alloy::primitives::Address::to_checksum(None)`: the EIP-55 text of the
/// address (see `evm_checksum_text`), which lower-cases to its plain
/// hexadecimal.
#[verifier::external_body]
pub fn checksum_address(address: &[u8; 20]) -> (text: String)
    ensures
        text@ == evm_checksum_text(address@),
        lowercase(text@) == hex_0x(address@),
{
    alloy::primitives::Address::from(*address).to_checksum(None)
}

/// The four-byte selector of a contract function: the start of the
/// Keccak-256 digest of its signature.
pub open spec fn selector_of(signature: Seq<char>) -> Seq<u8> {
    keccak256_digest(encode_utf8(signature)).subrange(0, 4)
}

/// The selector of the function with this signature.
pub fn function_selector(signature: &str) -> (selector: Vec<u8>)
    ensures
        selector@ == selector_of(signature@),
        selector@.len() == 4,
{
    let digest = keccak256(signature.as_bytes());
    let mut selector: Vec<u8> = Vec::new();
    selector.push(digest[0]);
    selector.push(digest[1]);
    selector.push(digest[2]);
    selector.push(digest[3]);
    proof {
        assert(selector@ =~= digest@.subrange(0, 4));
    }
    selector
}

/// `n` zero bytes.
pub open spec fn zeros(n: nat) -> Seq<u8> {
    Seq::new(n, |i: int| 0u8)
}

/// Appends `n` zero bytes to `out`.
pub fn push_zeros(out: &mut Vec<u8>, n: usize)
    ensures
        final(out)@ == old(out)@ + zeros(n as nat),
{
    for i in 0..n
        invariant
            out@ == old(out)@ + zeros(i as nat),
    {
        out.push(0u8);
        proof {
            assert(old(out)@ + zeros((i + 1) as nat) =~= old(out)@ + zeros(i as nat) + seq![0u8]);
        }
    }
}

/// A 32-byte ABI word holding an unsigned integer of `n <= 16` bytes.
pub open spec fn uint_word(v: nat, n: nat) -> Seq<u8> {
    zeros((32 - n) as nat) + be_bytes(v, n)
}

/// A 32-byte ABI word holding a 20-byte address.
pub open spec fn address_word(a: Seq<u8>) -> Seq<u8> {
    zeros(12) + a
}

/// The parameters of the order book's `openOrder`.
#[derive(Debug, Clone, Copy)]
pub struct EvmOrderParams {
    pub dest_chain_id: u32,
    pub fill_deadline: u32,
    pub token_in: [u8; 20],
    pub token_out: [u8; 32],
    pub amount_in: u128,
    pub amount_out: u128,
    pub recipient: [u8; 32],
    pub solver: [u8; 32],
}

/// The signature of the order book's `openOrder`.
pub open spec fn open_order_signature() -> Seq<char> {
    "openOrder((uint32,uint32,address,bytes32,uint128,uint128,bytes32,bytes32))"@
}

/// The call data of `openOrder`: the selector, then the eight static fields
/// of the parameters, one word each.
pub open spec fn open_order_calldata(p: EvmOrderParams) -> Seq<u8> {
    selector_of(open_order_signature()) + uint_word(p.dest_chain_id as nat, 4) + uint_word(
        p.fill_deadline as nat,
        4,
    ) + address_word(p.token_in@) + p.token_out@ + uint_word(p.amount_in as nat, 16) + uint_word(
        p.amount_out as nat,
        16,
    ) + p.recipient@ + p.solver@
}

/// Appends the ABI word of an unsigned integer of `n <= 16` bytes.
pub fn push_uint_word(out: &mut Vec<u8>, v: u128, n: usize)
    requires
        n <= 16,
    ensures
        final(out)@ == old(out)@ + uint_word(v as nat, n as nat),
{
    push_zeros(out, 32 - n);
    append_be(out, v, n);
    proof {
        assert(final(out)@ =~= old(out)@ + uint_word(v as nat, n as nat));
    }
}

/// Encodes the call of `openOrder`.
pub fn encode_open_order_call(params: &EvmOrderParams) -> (data: Vec<u8>)
    ensures
        data@ == open_order_calldata(*params),
        data@.len() == 4 + 32 * 8,
        open_order_layout(data@, *params),
{
    let mut data = function_selector(
        "openOrder((uint32,uint32,address,bytes32,uint128,uint128,bytes32,bytes32))",
    );
    push_uint_word(&mut data, params.dest_chain_id as u128, 4);
    push_uint_word(&mut data, params.fill_deadline as u128, 4);
    push_zeros(&mut data, 12);
    extend_bytes(&mut data, &params.token_in);
    extend_bytes(&mut data, &params.token_out);
    push_uint_word(&mut data, params.amount_in, 16);
    push_uint_word(&mut data, params.amount_out, 16);
    extend_bytes(&mut data, &params.recipient);
    extend_bytes(&mut data, &params.solver);
    proof {
        assert(data@ =~= open_order_calldata(*params));
        lemma_pow256_values();
        lemma_uint_word(params.dest_chain_id as nat, 4);
        lemma_uint_word(params.fill_deadline as nat, 4);
        lemma_uint_word(params.amount_in as nat, 16);
        lemma_uint_word(params.amount_out as nat, 16);
        law_open_order_call_layout(*params, data@);
    }
    data
}

/// The call data of ERC-20 `approve(spender, amount)`.
pub open spec fn approve_calldata(spender: Seq<u8>, amount: u128) -> Seq<u8> {
    selector_of("approve(address,uint256)"@) + address_word(spender) + uint_word(amount as nat, 16)
}

/// Encodes the call of ERC-20 `approve`.
pub fn encode_approve_call(spender: &[u8; 20], amount: u128) -> (data: Vec<u8>)
    ensures
        data@ == approve_calldata(spender@, amount),
{
    let mut data = function_selector("approve(address,uint256)");
    push_zeros(&mut data, 12);
    extend_bytes(&mut data, spender);
    push_uint_word(&mut data, amount, 16);
    proof {
        assert(data@ =~= approve_calldata(spender@, amount));
    }
    data
}

/// `0x` followed by the lower-case hexadecimal digits of `data`.
pub open spec fn hex_0x(data: Seq<u8>) -> Seq<char> {
    "0x"@ + hex_text(data)
}

/// `0x` followed by the lower-case hexadecimal digits of `data`.
pub fn encode_hex_0x(data: &[u8]) -> (text: String)
    ensures
        text@ == hex_0x(data@),
{
    String::from_str("0x").concat(hex_encode(data).as_str())
}

/// The transaction that approves `spender` to move `amount` of `token`.
pub fn build_approve_calldata(token: &str, spender: &str, amount: u128) -> (tx: Result<
    EvmTransaction,
    TransactionBuilderError,
>)
    ensures
        match evm_address(spender@) {
            Some(s) => tx matches Ok(t) && t.to@ == token@ && t.data@ == hex_0x(
                approve_calldata(s, amount),
            ) && t.value@ == "0x0"@,
            None => tx matches Err(TransactionBuilderError::InvalidAddress(m)) && m@
                == address_error_text(spender@),
        },
{
    let spender_address = match parse_evm_address(spender) {
        Ok(a) => a,
        Err(e) => return Err(TransactionBuilderError::InvalidAddress(e)),
    };
    Ok(approve_transaction(token, &spender_address, amount))
}

/// The approval transaction for a spender given by its bytes.
fn approve_transaction(token: &str, spender: &[u8; 20], amount: u128) -> (tx: EvmTransaction)
    ensures
        tx.to@ == token@,
        tx.data@ == hex_0x(approve_calldata(spender@, amount)),
        tx.value@ == "0x0"@,
{
    let data = encode_approve_call(spender, amount);
    let value = String::from_str("0x0");
    proof {
        reveal_strlit("0x0");
    }
    EvmTransaction { to: token.to_owned(), data: encode_hex_0x(data.as_slice()), value }
}

/// A 256-bit unsigned integer as its two 128-bit halves.
#[derive(Debug, Clone, Copy)]
pub struct Uint256 {
    pub high: u128,
    pub low: u128,
}

impl Uint256 {
    pub open spec fn value(self) -> int {
        self.high * 0x1_0000_0000_0000_0000_0000_0000_0000_0000 + self.low
    }
}

/// The addresses an EVM order needs, as bytes.
#[derive(Debug, Clone, Copy)]
pub struct EvmOrderAddresses {
    pub sender: [u8; 20],
    pub token_in: [u8; 20],
    pub token_out: [u8; 32],
}

/// Parses the addresses of an EVM order in the order the builder reads
/// them: the sender (to ask for its nonce), the input token, then the
/// output token.
pub fn parse_evm_order_addresses(input: &OpenOrderInput) -> (addresses: Result<
    EvmOrderAddresses,
    TransactionBuilderError,
>)
    ensures
        match evm_address(input.sender_address@) {
            None => addresses matches Err(TransactionBuilderError::InvalidAddress(m)) && m@
                == address_error_text(input.sender_address@),
            Some(sender) => match evm_address(input.token_in@) {
                None => addresses matches Err(TransactionBuilderError::InvalidAddress(m)) && m@
                    == address_error_text(input.token_in@),
                Some(token_in) => match evm_bytes32(input.token_out@) {
                    Err(r) => addresses matches Err(TransactionBuilderError::InvalidAddress(m)) && m@
                        == r,
                    Ok(token_out) => addresses matches Ok(a) && a.sender@ == sender && a.token_in@
                        == token_in && a.token_out@ == token_out,
                },
            },
        },
{
    let sender = match parse_evm_address(input.sender_address.as_str()) {
        Ok(a) => a,
        Err(e) => return Err(TransactionBuilderError::InvalidAddress(e)),
    };
    let token_in = match parse_evm_address(input.token_in.as_str()) {
        Ok(a) => a,
        Err(e) => return Err(TransactionBuilderError::InvalidAddress(e)),
    };
    let token_out = match parse_bytes32(input.token_out.as_str()) {
        Ok(b) => b,
        Err(e) => return Err(e),
    };
    Ok(EvmOrderAddresses { sender, token_in, token_out })
}

/// The parameters of `openOrder` for an input (the deadline is cut to 32
/// bits).
pub open spec fn evm_params(input: OpenOrderInput, a: EvmOrderAddresses) -> EvmOrderParams {
    EvmOrderParams {
        dest_chain_id: input.dest_chain_id,
        fill_deadline: input.fill_deadline as u32,
        token_in: a.token_in,
        token_out: a.token_out,
        amount_in: input.amount_in as u128,
        amount_out: input.amount_out,
        recipient: input.recipient,
        solver: input.solver,
    }
}

/// The order an EVM input opens, with addresses left-padded to 32 bytes.
pub open spec fn evm_order_data(input: OpenOrderInput, a: EvmOrderAddresses, nonce: u64, chain_id: u32) -> OrderData {
    OrderData {
        version: 1,
        sender: left_padded(a.sender),
        nonce,
        origin_chain_id: chain_id,
        dest_chain_id: input.dest_chain_id,
        fill_deadline: input.fill_deadline,
        token_in: left_padded(a.token_in),
        token_out: a.token_out,
        amount_in: input.amount_in as u128,
        amount_out: input.amount_out,
        recipient: input.recipient,
        solver: input.solver,
    }
}

/// A 20-byte address left-padded with zeros to 32 bytes.
pub open spec fn left_padded(a: [u8; 20]) -> [u8; 32] {
    choose|b: [u8; 32]| b@ == zeros(12) + a@
}

fn pad_address(a: &[u8; 20]) -> (b: [u8; 32])
    ensures
        b@ == zeros(12) + a@,
        b == left_padded(*a),
{
    let mut v: Vec<u8> = Vec::new();
    extend_bytes(&mut v, a);
    let b = left_pad_32(&v);
    proof {
        assert(b@ =~= zeros(12) + a@);
        let c = left_padded(*a);
        assert(c@ =~= b@);
        assert(c =~= b);
    }
    b
}

/// The open-order transaction of an EVM input, once the sender's nonce and
/// its allowance towards the order book are known: the `openOrder` call,
/// an approval of the largest `u128` amount where the allowance is below
/// the input amount, and the id of the order it opens.
pub fn build_evm_open_order(
    input: &OpenOrderInput,
    addresses: &EvmOrderAddresses,
    nonce: u64,
    allowance: Uint256,
    contract: &[u8; 20],
    chain_id: u32,
) -> (result: EvmTransactionResult)
    ensures
        result.transaction.to@ == hex_0x(contract@),
        result.transaction.data@ == hex_0x(open_order_calldata(evm_params(*input, *addresses))),
        result.transaction.value@ == "0x0"@,
        match result.approval_transaction {
            Some(t) => allowance.value() < input.amount_in && t.to@ == input.token_in@ && t.data@
                == hex_0x(approve_calldata(contract@, u128::MAX)) && t.value@ == "0x0"@,
            None => allowance.value() >= input.amount_in,
        },
        result.order_id@ == hex_0x(
            keccak256_digest(evm_order_data(*input, *addresses, nonce, chain_id).encoding()),
        ),
        result.nonce == nonce,
        result.contract_address@ == hex_0x(contract@),
{
    let approval_transaction = if allowance.high == 0 && allowance.low < input.amount_in as u128 {
        Some(approve_transaction(input.token_in.as_str(), contract, u128::MAX))
    } else {
        None
    };
    let params = EvmOrderParams {
        dest_chain_id: input.dest_chain_id,
        fill_deadline: input.fill_deadline as u32,
        token_in: addresses.token_in,
        token_out: addresses.token_out,
        amount_in: input.amount_in as u128,
        amount_out: input.amount_out,
        recipient: input.recipient,
        solver: input.solver,
    };
    let calldata = encode_open_order_call(&params);
    let order = OrderData {
        version: 1,
        sender: pad_address(&addresses.sender),
        nonce,
        origin_chain_id: chain_id,
        dest_chain_id: input.dest_chain_id,
        fill_deadline: input.fill_deadline,
        token_in: pad_address(&addresses.token_in),
        token_out: addresses.token_out,
        amount_in: input.amount_in as u128,
        amount_out: input.amount_out,
        recipient: input.recipient,
        solver: input.solver,
    };
    let order_id = order.compute_order_id();
    let value = String::from_str("0x0");
    proof {
        reveal_strlit("0x0");
    }
    EvmTransactionResult {
        transaction: EvmTransaction {
            to: encode_hex_0x(contract),
            data: encode_hex_0x(calldata.as_slice()),
            value,
        },
        approval_transaction,
        order_id: encode_hex_0x(&order_id),
        nonce,
        contract_address: encode_hex_0x(contract),
    }
}

/// The nonce a sender's nonce account holds: zero where the account could
/// not be fetched (it does not exist yet), the little-endian `u64` at bytes
/// 9 to 17 where it is long enough, and an account parse error otherwise.
pub fn nonce_from_account(account: Option<&[u8]>) -> (nonce: Result<u64, TransactionBuilderError>)
    ensures
        match account {
            None => nonce == Ok::<u64, TransactionBuilderError>(0),
            Some(data) => if data@.len() >= 17 {
                nonce matches Ok(n) && n == le_value(data@.subrange(9, 17))
            } else {
                nonce matches Err(TransactionBuilderError::AccountParseError)
            },
        },
{
    match account {
        None => Ok(0),
        Some(data) => {
            if data.len() >= 17 {
                let v = read_le(data, 9, 8);
                proof {
                    crate::bytes::lemma_le_value_bound(data@.subrange(9, 17));
                    crate::bytes::lemma_pow256_values();
                }
                Ok(v as u64)
            } else {
                Err(TransactionBuilderError::AccountParseError)
            }
        },
    }
}

/// The parameters of the Solana program's `open_order`.
#[derive(Debug, Clone, Copy)]
pub struct OrderParams {
    pub dest_chain_id: u32,
    pub fill_deadline: u64,
    pub token_out: [u8; 32],
    pub amount_in: u64,
    pub amount_out: u128,
    pub recipient: [u8; 32],
    pub solver: [u8; 32],
}

impl OrderParams {
    /// The Borsh encoding: the fields in order, integers little-endian.
    pub open spec fn borsh(self) -> Seq<u8> {
        le_bytes(self.dest_chain_id as nat, 4) + le_bytes(self.fill_deadline as nat, 8)
            + self.token_out@ + le_bytes(self.amount_in as nat, 8) + le_bytes(self.amount_out as nat, 16)
            + self.recipient@ + self.solver@
    }

    /// Appends the Borsh encoding to `out`.
    pub fn serialize(&self, out: &mut Vec<u8>)
        ensures
            final(out)@ == old(out)@ + self.borsh(),
    {
        append_le(out, self.dest_chain_id as u128, 4);
        append_le(out, self.fill_deadline as u128, 8);
        extend_bytes(out, &self.token_out);
        append_le(out, self.amount_in as u128, 8);
        append_le(out, self.amount_out, 16);
        extend_bytes(out, &self.recipient);
        extend_bytes(out, &self.solver);
        proof {
            assert(final(out)@ =~= old(out)@ + self.borsh());
        }
    }
}

/// The discriminator of the Solana program's `open_order` instruction.
pub open spec fn open_order_discriminator() -> Seq<u8> {
    seq![206u8, 88u8, 88u8, 143u8, 38u8, 136u8, 50u8, 224u8]
}

/// The data of an `open_order` instruction: discriminator, then parameters.
pub fn open_order_instruction_data(params: &OrderParams) -> (data: Vec<u8>)
    ensures
        data@ == open_order_discriminator() + params.borsh(),
{
    let mut data: Vec<u8> = Vec::with_capacity(8 + 128);
    data.push(206);
    data.push(88);
    data.push(88);
    data.push(143);
    data.push(38);
    data.push(136);
    data.push(50);
    data.push(224);
    params.serialize(&mut data);
    proof {
        assert(data@ =~= open_order_discriminator() + params.borsh());
    }
    data
}

/// The error text `Pubkey::from_str` gives for a text that is not a
/// Solana address: the wrong size where it is too long or decodes to other
/// than 32 bytes, invalid where it is not base58.
pub open spec fn pubkey_error(text: Seq<char>) -> Seq<char> {
    let b = encode_utf8(text);
    if b.len() > 44 {
        "String is the wrong size"@
    } else {
        match base58_decoding(b) {
            Some(_) => "String is the wrong size"@,
            None => "Invalid Base58 string"@,
        }
    }
}

/// A Solana address, or the builder's error for it.
fn parse_pubkey_or_error(text: &str) -> (key: Result<[u8; 32], TransactionBuilderError>)
    ensures
        match solana_pubkey(text@) {
            Some(b) => key matches Ok(k) && k@ == b,
            None => key matches Err(TransactionBuilderError::InvalidAddress(m)) && m@ == pubkey_error(
                text@,
            ),
        },
{
    match parse_pubkey(text) {
        Some(k) => Ok(k),
        None => {
            let b = text.as_bytes();
            let wrong_size = b.len() > 44 || base58_decode(b).is_ok();
            if wrong_size {
                Err(TransactionBuilderError::InvalidAddress(String::from_str("String is the wrong size")))
            } else {
                Err(TransactionBuilderError::InvalidAddress(String::from_str("Invalid Base58 string")))
            }
        },
    }
}

/// The sender and input mint of a Solana order, parsed in the builder's
/// order.
pub fn parse_svm_order_addresses(input: &OpenOrderInput) -> (addresses: Result<
    ([u8; 32], [u8; 32]),
    TransactionBuilderError,
>)
    ensures
        match solana_pubkey(input.sender_address@) {
            None => addresses matches Err(TransactionBuilderError::InvalidAddress(m)) && m@
                == pubkey_error(input.sender_address@),
            Some(sender) => match solana_pubkey(input.token_in@) {
                None => addresses matches Err(TransactionBuilderError::InvalidAddress(m)) && m@
                    == pubkey_error(input.token_in@),
                Some(mint) => addresses matches Ok((s, t)) && s@ == sender && t@ == mint,
            },
        },
{
    let sender = match parse_pubkey_or_error(input.sender_address.as_str()) {
        Ok(k) => k,
        Err(e) => return Err(e),
    };
    let mint = match parse_pubkey_or_error(input.token_in.as_str()) {
        Ok(k) => k,
        Err(e) => return Err(e),
    };
    Ok((sender, mint))
}

/// What a Solana open order is made of before the accounts are derived.
#[derive(Debug, Clone)]
pub struct SvmOpenOrder {
    /// The order the transaction opens.
    pub order: OrderData,
    /// Its id.
    pub order_id: [u8; 32],
    /// The data of the `open_order` instruction.
    pub instruction_data: Vec<u8>,
    /// Whether the order leaves the chain, so the destination account is
    /// passed.
    pub needs_destination_account: bool,
}

/// The order a Solana input opens.
pub open spec fn svm_order_data(
    input: OpenOrderInput,
    sender: [u8; 32],
    mint: [u8; 32],
    nonce: u64,
    chain_id: u32,
    token_out: [u8; 32],
) -> OrderData {
    OrderData {
        version: 1,
        sender,
        nonce,
        origin_chain_id: chain_id,
        dest_chain_id: input.dest_chain_id,
        fill_deadline: input.fill_deadline,
        token_in: mint,
        token_out,
        amount_in: input.amount_in as u128,
        amount_out: input.amount_out,
        recipient: input.recipient,
        solver: input.solver,
    }
}

/// The parameters of `open_order` for a Solana input.
pub open spec fn svm_params(input: OpenOrderInput, token_out: [u8; 32]) -> OrderParams {
    OrderParams {
        dest_chain_id: input.dest_chain_id,
        fill_deadline: input.fill_deadline,
        token_out,
        amount_in: input.amount_in,
        amount_out: input.amount_out,
        recipient: input.recipient,
        solver: input.solver,
    }
}

/// The order, its id and the instruction data of a Solana input, once the
/// sender's nonce is known; fails where the output token does not parse.
pub fn build_svm_open_order(
    input: &OpenOrderInput,
    sender: [u8; 32],
    mint: [u8; 32],
    nonce: u64,
    chain_id: u32,
) -> (result: Result<SvmOpenOrder, TransactionBuilderError>)
    ensures
        match svm_bytes32(input.token_out@) {
            Err(r) => result matches Err(TransactionBuilderError::InvalidAddress(m)) && m@ == r,
            Ok(t) => result matches Ok(o) && o.order.token_out@ == t && o.order == svm_order_data(
                *input,
                sender,
                mint,
                nonce,
                chain_id,
                o.order.token_out,
            ) && o.order_id@ == keccak256_digest(o.order.encoding()) && o.instruction_data@
                == open_order_discriminator() + svm_params(*input, o.order.token_out).borsh()
                && o.needs_destination_account == (input.dest_chain_id != chain_id),
        },
{
    let token_out = match parse_bytes32_svm(input.token_out.as_str()) {
        Ok(b) => b,
        Err(e) => return Err(e),
    };
    let order = OrderData {
        version: 1,
        sender,
        nonce,
        origin_chain_id: chain_id,
        dest_chain_id: input.dest_chain_id,
        fill_deadline: input.fill_deadline,
        token_in: mint,
        token_out,
        amount_in: input.amount_in as u128,
        amount_out: input.amount_out,
        recipient: input.recipient,
        solver: input.solver,
    };
    let order_id = order.compute_order_id();
    let params = OrderParams {
        dest_chain_id: input.dest_chain_id,
        fill_deadline: input.fill_deadline,
        token_out,
        amount_in: input.amount_in,
        amount_out: input.amount_out,
        recipient: input.recipient,
        solver: input.solver,
    };
    let instruction_data = open_order_instruction_data(&params);
    Ok(
        SvmOpenOrder {
            order,
            order_id,
            instruction_data,
            needs_destination_account: input.dest_chain_id != chain_id,
        },
    )
}

/// The result handed back for a Solana order: the serialized transaction,
/// the order id in `0x` hexadecimal and the program address in base58.
pub fn svm_transaction_result(
    transaction: String,
    order_id: &[u8; 32],
    nonce: u64,
    program_id: &[u8; 32],
) -> (result: TransactionResult)
    ensures
        result.transaction == transaction,
        result.order_id@ == hex_0x(order_id@),
        result.nonce == nonce,
        result.contract_address@ == base58_encoding(program_id@),
{
    TransactionResult {
        transaction,
        order_id: encode_hex_0x(order_id),
        nonce,
        contract_address: base58_encode(program_id),
    }
}


proof fn lemma_be_value_zeros(m: nat)
    ensures
        be_value(zeros(m)) == 0,
    decreases m,
{
    if m > 0 {
        assert(zeros(m).drop_last() =~= zeros((m - 1) as nat));
        lemma_be_value_zeros((m - 1) as nat);
    }
}

/// Leading zero bytes do not change a big-endian value.
pub proof fn lemma_be_value_zero_padded(m: nat, s: Seq<u8>)
    ensures
        be_value(zeros(m) + s) == be_value(s),
    decreases s.len(),
{
    if s.len() == 0 {
        assert(zeros(m) + s =~= zeros(m));
        lemma_be_value_zeros(m);
    } else {
        assert((zeros(m) + s).drop_last() =~= zeros(m) + s.drop_last());
        lemma_be_value_zero_padded(m, s.drop_last());
    }
}

/// An ABI word of an unsigned integer that fits in `n` bytes is 32 bytes
/// long and reads back, big-endian, as the integer.
pub proof fn lemma_uint_word(v: nat, n: nat)
    requires
        n <= 32,
        v < pow256(n),
    ensures
        uint_word(v, n).len() == 32,
        be_value(uint_word(v, n)) == v,
{
    lemma_be_bytes_len(v, n);
    lemma_be_value_zero_padded((32 - n) as nat, be_bytes(v, n));
    lemma_be_value_of_be_bytes(v, n);
}

/// The `k`-th 32-byte argument word of call data, after the four-byte
/// selector.
pub open spec fn call_word(data: Seq<u8>, k: int) -> Seq<u8> {
    data.subrange(4 + 32 * k, 36 + 32 * k)
}

/// `data` is the `openOrder` call of `p` as the ABI lays it out: the
/// selector, then one word per field of `OrderParams` in the signature's
/// order (integers big-endian, the address in the last 20 bytes of its
/// word): destination chain, fill deadline, input token, output token,
/// amount in, amount out, recipient, solver.
pub open spec fn open_order_layout(data: Seq<u8>, p: EvmOrderParams) -> bool {
    &&& data.len() == 4 + 32 * 8
    &&& data.subrange(0, 4) == selector_of(open_order_signature())
    &&& be_value(call_word(data, 0)) == p.dest_chain_id
    &&& be_value(call_word(data, 1)) == p.fill_deadline
    &&& be_value(call_word(data, 2).subrange(0, 12)) == 0
    &&& call_word(data, 2).subrange(12, 32) == p.token_in@
    &&& call_word(data, 3) == p.token_out@
    &&& be_value(call_word(data, 4)) == p.amount_in
    &&& be_value(call_word(data, 5)) == p.amount_out
    &&& call_word(data, 6) == p.recipient@
    &&& call_word(data, 7) == p.solver@
}

/// The `openOrder` call data (260 bytes: the selector and eight words)
/// carries each field of the parameters in its own word, in the
/// signature's order: the recipient in word 6 and the solver in word 7,
/// the input token in word 2, the output token in word 3.
pub proof fn law_open_order_call_layout(p: EvmOrderParams, d: Seq<u8>)
    requires
        d == open_order_calldata(p),
        d.len() == 4 + 32 * 8,
    ensures
        open_order_layout(d, p),
{
    lemma_pow256_values();
    lemma_uint_word(p.dest_chain_id as nat, 4);
    lemma_uint_word(p.fill_deadline as nat, 4);
    lemma_uint_word(p.amount_in as nat, 16);
    lemma_uint_word(p.amount_out as nat, 16);
    lemma_be_value_zeros(12);
    let sel = selector_of(open_order_signature());
    assert(sel.len() == 4);
    assert(d.subrange(0, 4) =~= sel);
    assert(call_word(d, 0) =~= uint_word(p.dest_chain_id as nat, 4));
    assert(call_word(d, 1) =~= uint_word(p.fill_deadline as nat, 4));
    assert(call_word(d, 2) =~= address_word(p.token_in@));
    assert(call_word(d, 2).subrange(0, 12) =~= zeros(12));
    assert(call_word(d, 2).subrange(12, 32) =~= p.token_in@);
    assert(call_word(d, 3) =~= p.token_out@);
    assert(call_word(d, 4) =~= uint_word(p.amount_in as nat, 16));
    assert(call_word(d, 5) =~= uint_word(p.amount_out as nat, 16));
    assert(call_word(d, 6) =~= p.recipient@);
    assert(call_word(d, 7) =~= p.solver@);
}


/// `b` holds the fields of `p` at their offsets, in declaration order
/// (destination chain, fill deadline, output token, amount in, amount out,
/// recipient, solver), each integer little-endian, 132 bytes in all.
pub open spec fn order_params_layout(b: Seq<u8>, p: OrderParams) -> bool {
    &&& b.len() == 132
    &&& le_value(b.subrange(0, 4)) == p.dest_chain_id
    &&& le_value(b.subrange(4, 12)) == p.fill_deadline
    &&& b.subrange(12, 44) == p.token_out@
    &&& le_value(b.subrange(44, 52)) == p.amount_in
    &&& le_value(b.subrange(52, 68)) == p.amount_out
    &&& b.subrange(68, 100) == p.recipient@
    &&& b.subrange(100, 132) == p.solver@
}

/// The Borsh form of the open-order parameters places every field at its
/// offset in declaration order (see `order_params_layout`): the recipient
/// at 68 and the solver at 100.
pub proof fn law_order_params_layout(p: OrderParams)
    ensures
        order_params_layout(p.borsh(), p),
{
    let b = p.borsh();
    lemma_pow256_values();
    lemma_le_bytes_len(p.dest_chain_id as nat, 4);
    lemma_le_value_of_le_bytes(p.dest_chain_id as nat, 4);
    lemma_le_bytes_len(p.fill_deadline as nat, 8);
    lemma_le_value_of_le_bytes(p.fill_deadline as nat, 8);
    lemma_le_bytes_len(p.amount_in as nat, 8);
    lemma_le_value_of_le_bytes(p.amount_in as nat, 8);
    lemma_le_bytes_len(p.amount_out as nat, 16);
    lemma_le_value_of_le_bytes(p.amount_out as nat, 16);
    assert(b.subrange(0, 4) =~= le_bytes(p.dest_chain_id as nat, 4));
    assert(b.subrange(4, 12) =~= le_bytes(p.fill_deadline as nat, 8));
    assert(b.subrange(12, 44) =~= p.token_out@);
    assert(b.subrange(44, 52) =~= le_bytes(p.amount_in as nat, 8));
    assert(b.subrange(52, 68) =~= le_bytes(p.amount_out as nat, 16));
    assert(b.subrange(68, 100) =~= p.recipient@);
    assert(b.subrange(100, 132) =~= p.solver@);
}

} // verus!
