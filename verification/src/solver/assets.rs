//! Assets (tokens on a chain) and the runtime of each chain.
use vstd::prelude::*;
use crate::bytes::{base58_encode, base58_encoding, hex_encode, hex_text};

verus! {

broadcast use vstd::array::group_array_axioms;

/// The virtual machine a chain runs.
#[derive(Debug, Clone, Copy, PartialEq, Eq, Hash, Structural)]
pub enum ChainRuntime {
    Evm,
    Svm,
}

/// Chain ids of the Solana clusters (mainnet, localnet, devnet); every other
/// chain id is an EVM chain.
pub open spec fn is_svm_chain(chain_id: u32) -> bool {
    chain_id == 1399811149 || chain_id == 1399811150 || chain_id == 1399811151
}

pub open spec fn runtime_of(chain_id: u32) -> ChainRuntime {
    if is_svm_chain(chain_id) {
        ChainRuntime::Svm
    } else {
        ChainRuntime::Evm
    }
}

/// The runtime of a chain.
pub fn chain_runtime(chain_id: u32) -> (runtime: ChainRuntime)
    ensures
        runtime == runtime_of(chain_id),
{
    if chain_id == 1399811149 || chain_id == 1399811150 || chain_id == 1399811151 {
        ChainRuntime::Svm
    } else {
        ChainRuntime::Evm
    }
}

/// A token on a chain, as the liquidity API describes it.
#[derive(Debug, Clone, PartialEq, Eq, Hash)]
pub struct Asset {
    pub chain_id: u32,
    pub address: String,
    pub decimals: i64,
    pub icon: String,
    pub m0_extension: bool,
    pub name: String,
    pub runtime: ChainRuntime,
    pub symbol: String,
}

/// The value of an asset, its texts taken as character sequences.
pub struct AssetView {
    pub chain_id: u32,
    pub address: Seq<char>,
    pub decimals: i64,
    pub icon: Seq<char>,
    pub m0_extension: bool,
    pub name: Seq<char>,
    pub runtime: ChainRuntime,
    pub symbol: Seq<char>,
}

impl View for Asset {
    type V = AssetView;

    open spec fn view(&self) -> AssetView {
        AssetView {
            chain_id: self.chain_id,
            address: self.address@,
            decimals: self.decimals,
            icon: self.icon@,
            m0_extension: self.m0_extension,
            name: self.name@,
            runtime: self.runtime,
            symbol: self.symbol@,
        }
    }
}

impl Asset {
    /// A copy of this asset.
    pub fn duplicate(&self) -> (copy: Asset)
        ensures
            copy == *self,
    {
        Asset {
            chain_id: self.chain_id,
            address: self.address.clone(),
            decimals: self.decimals,
            icon: self.icon.clone(),
            m0_extension: self.m0_extension,
            name: self.name.clone(),
            runtime: self.runtime,
            symbol: self.symbol.clone(),
        }
    }

    /// Whether two assets are the same in every field.
    pub fn same_as(&self, other: &Asset) -> (same: bool)
        ensures
            same == (self@ == other@),
    {
        self.chain_id == other.chain_id && self.address == other.address && self.decimals
            == other.decimals && self.icon == other.icon && self.m0_extension == other.m0_extension
            && self.name == other.name && self.runtime == other.runtime && self.symbol
            == other.symbol
    }

    /// The native currency of a chain: SOL on Solana, ETH elsewhere.
    pub fn get_native(chain_id: u32) -> (native: Asset)
        ensures
            native.chain_id == chain_id,
            native.address@ == Seq::<char>::empty(),
            native.icon@ == Seq::<char>::empty(),
            !native.m0_extension,
            native.runtime == runtime_of(chain_id),
            is_svm_chain(chain_id) ==> native.decimals == 9 && native.name@ == "Solana"@
                && native.symbol@ == "SOL"@,
            !is_svm_chain(chain_id) ==> native.decimals == 18 && native.name@ == "Ethereum"@
                && native.symbol@ == "ETH"@,
    {
        match chain_runtime(chain_id) {
            ChainRuntime::Svm => Asset {
                chain_id,
                address: String::new(),
                decimals: 9,
                icon: String::new(),
                m0_extension: false,
                name: String::from_str("Solana"),
                runtime: ChainRuntime::Svm,
                symbol: String::from_str("SOL"),
            },
            ChainRuntime::Evm => Asset {
                chain_id,
                address: String::new(),
                decimals: 18,
                icon: String::new(),
                m0_extension: false,
                name: String::from_str("Ethereum"),
                runtime: ChainRuntime::Evm,
                symbol: String::from_str("ETH"),
            },
        }
    }
}


/// The display form of a 32-byte address: an EVM address (twelve leading
/// zero bytes) as `0x` and 40 lower-case hexadecimal digits, anything else
/// in base58.
pub open spec fn address_text(bytes: Seq<u8>) -> Seq<char> {
    if forall|i: int| 0 <= i < 12 ==> bytes[i] == 0 {
        "0x"@ + hex_text(bytes.subrange(12, 32))
    } else {
        base58_encoding(bytes)
    }
}

/// The display form of a 32-byte address (see `address_text`).
pub fn format_address(bytes: &[u8; 32]) -> (text: String)
    ensures
        text@ == address_text(bytes@),
{
    let mut i: usize = 0;
    while i < 12
        invariant
            i <= 12,
            bytes@.len() == 32,
            forall|j: int| 0 <= j < i ==> bytes@[j] == 0,
        decreases 12 - i,
    {
        if bytes[i] != 0 {
            return base58_encode(bytes.as_slice());
        }
        i = i + 1;
    }
    let tail = vstd::slice::slice_subrange(bytes.as_slice(), 12, 32);
    String::from_str("0x").concat(hex_encode(tail).as_str())
}

} // verus!
