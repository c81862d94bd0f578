//! The assets the liquidity API lists, looked up by (address, chain id).
use vstd::prelude::*;
use vstd::string::StringSliceAdditionalSpecFns;
use crate::bytes::{base58_decode, base58_decoding, hex_bytes, hex_decode, left_pad_32};
use crate::solver::assets::{Asset, is_svm_chain};
use crate::table::{
    has_key, key_position, keys_unique, lemma_table_absent, lemma_table_index, lemma_table_push,
    lemma_table_update, table_map,
};

verus! {

broadcast use vstd::array::group_array_axioms;

/// Whether two 32-byte strings are equal.
pub fn bytes32_eq(a: &[u8; 32], b: &[u8; 32]) -> (same: bool)
    ensures
        same == (a@ == b@),
{
    for i in 0..32
        invariant
            forall|j: int| 0 <= j < i ==> a@[j] == b@[j],
    {
        if a[i] != b[i] {
            return false;
        }
    }
    proof {
        assert(a@ =~= b@);
    }
    true
}

/// One listed asset with the key it is found by.
#[derive(Debug, Clone)]
pub struct AssetEntry {
    pub address: [u8; 32],
    pub chain_id: u32,
    pub asset: Asset,
}

pub open spec fn asset_key() -> spec_fn(AssetEntry) -> (Seq<u8>, u32) {
    |e: AssetEntry| (e.address@, e.chain_id)
}

/// The 32 bytes of a text with an optional `0x` prefix and exactly 40
/// hexadecimal digits: the 20-byte address, left-padded with zeros.
pub open spec fn evm_address_bytes(text: Seq<u8>) -> Option<Seq<u8>> {
    let digits = if text.len() >= 2 && text[0] == 48 && text[1] == 120 {
        text.subrange(2, text.len() as int)
    } else {
        text
    };
    if digits.len() != 40 {
        None
    } else {
        match hex_bytes(digits) {
            Some(b) => Some(Seq::new(12, |i: int| 0u8) + b),
            None => None,
        }
    }
}

/// The first 32 bytes of `b`, zero-padded to 32.
pub open spec fn first_32_padded(b: Seq<u8>) -> Seq<u8> {
    Seq::new(32, |i: int| if i < b.len() { b[i] } else { 0u8 })
}

/// The 32-byte key of an asset address: base58 on Solana (truncated or
/// zero-padded to 32 bytes), a hexadecimal EVM address elsewhere.
pub open spec fn asset_address_key(chain_id: u32, address: Seq<u8>) -> Option<Seq<u8>> {
    if is_svm_chain(chain_id) {
        match base58_decoding(address) {
            Some(b) => Some(first_32_padded(b)),
            None => None,
        }
    } else {
        evm_address_bytes(address)
    }
}

/// The 32-byte key of an asset's address, or `None` where the address does
/// not decode.
pub fn parse_asset_address(chain_id: u32, address: &str) -> (key: Option<[u8; 32]>)
    ensures
        match key {
            Some(k) => asset_address_key(chain_id, address.spec_bytes()) == Some(k@),
            None => asset_address_key(chain_id, address.spec_bytes()) is None,
        },
{
    let text = address.as_bytes();
    if crate::solver::assets::chain_runtime(chain_id) == crate::solver::assets::ChainRuntime::Svm {
        match base58_decode(text) {
            Ok(bytes) => {
                let mut out = [0u8; 32];
                let n = if bytes.len() < 32 { bytes.len() } else { 32 };
                for i in 0..n
                    invariant
                        n <= bytes@.len(),
                        n <= 32,
                        n == bytes@.len() || n == 32,
                        forall|j: int| 0 <= j < i ==> out@[j] == bytes@[j],
                        forall|j: int| i <= j < 32 ==> out@[j] == 0,
                        out@.len() == 32,
                {
                    out[i] = bytes[i];
                }
                proof {
                    assert(out@ =~= first_32_padded(bytes@));
                }
                Some(out)
            },
            Err(_) => None,
        }
    } else {
        let len = text.len();
        let prefixed = len >= 2 && text[0] == 48 && text[1] == 120;
        let digits = if prefixed {
            vstd::slice::slice_subrange(text, 2, len)
        } else {
            text
        };
        if digits.len() != 40 {
            return None;
        }
        match hex_decode(digits) {
            Ok(bytes) => {
                proof {
                    lemma_hex_bytes_len(digits@);
                }
                Some(left_pad_32(&bytes))
            },
            Err(_) => None,
        }
    }
}

/// A decoded hexadecimal text is half as long as the text.
pub proof fn lemma_hex_bytes_len(text: Seq<u8>)
    ensures
        hex_bytes(text) matches Some(b) ==> b.len() * 2 == text.len(),
    decreases text.len(),
{
    if text.len() >= 2 {
        lemma_hex_bytes_len(text.subrange(2, text.len() as int));
    }
}

/// The assets the solver knows, by (32-byte address, chain id).
pub struct AssetStore {
    assets: Vec<AssetEntry>,
    liquidity_api_url: String,
}

/// The value of an asset store: the listed assets by key, and the URL of
/// the liquidity API they come from.
pub struct AssetStoreView {
    pub assets: Map<(Seq<u8>, u32), AssetEntry>,
    pub liquidity_api_url: Seq<char>,
}

impl View for AssetStore {
    type V = AssetStoreView;

    closed spec fn view(&self) -> Self::V {
        AssetStoreView {
            assets: table_map(self.assets@, asset_key()),
            liquidity_api_url: self.liquidity_api_url@,
        }
    }
}

impl AssetStore {
    pub closed spec fn wf(&self) -> bool {
        keys_unique(self.assets@, asset_key())
    }

    /// The URL of the liquidity API the assets come from.
    pub closed spec fn api_url(&self) -> String {
        self.liquidity_api_url
    }

    /// The URL of the liquidity API the assets come from.
    pub fn liquidity_api_url(&self) -> (url: &String)
        ensures
            *url == self.api_url(),
    {
        &self.liquidity_api_url
    }

    pub fn new(liquidity_api_url: String) -> (store: Self)
        ensures
            store.wf(),
            store@.assets == Map::<(Seq<u8>, u32), AssetEntry>::empty(),
            store@.liquidity_api_url == liquidity_api_url@,
            store.api_url() == liquidity_api_url,
    {
        let store = AssetStore { assets: Vec::new(), liquidity_api_url };
        proof {
            assert(store@.assets =~= Map::<(Seq<u8>, u32), AssetEntry>::empty());
        }
        store
    }

    fn position(&self, address: &[u8; 32], chain_id: u32) -> (pos: Option<usize>)
        requires
            self.wf(),
        ensures
            match pos {
                Some(i) => i < self.assets@.len() && asset_key()(self.assets@[i as int]) == (
                    address@,
                    chain_id,
                ),
                None => !self@.assets.contains_key((address@, chain_id)),
            },
    {
        let n = self.assets.len();
        for i in 0..n
            invariant
                n == self.assets@.len(),
                forall|j: int| 0 <= j < i ==> #[trigger] asset_key()(self.assets@[j]) != (address@, chain_id),
        {
            let e = &self.assets[i];
            if e.chain_id == chain_id && bytes32_eq(&e.address, address) {
                return Some(i);
            }
        }
        proof {
            lemma_table_absent(self.assets@, asset_key(), (address@, chain_id));
        }
        None
    }

    /// Lists `asset` under (`address`, `chain_id`), replacing what was there.
    pub fn insert_asset(&mut self, address: [u8; 32], chain_id: u32, asset: Asset)
        requires
            old(self).wf(),
        ensures
            final(self).wf(),
            final(self)@.assets == old(self)@.assets.insert(
                (address@, chain_id),
                AssetEntry { address, chain_id, asset },
            ),
            final(self).api_url() == old(self).api_url(),
            final(self)@.liquidity_api_url == old(self)@.liquidity_api_url,
    {
        let entry = AssetEntry { address, chain_id, asset };
        match self.position(&address, chain_id) {
            Some(i) => {
                proof {
                    lemma_table_update(self.assets@, asset_key(), i as int, entry);
                }
                self.assets.set(i, entry);
            },
            None => {
                proof {
                    lemma_table_push(self.assets@, asset_key(), entry);
                }
                self.assets.push(entry);
            },
        }
    }

    /// The asset listed under (`address`, `chain_id`).
    pub fn get_asset(&self, address: [u8; 32], chain_id: u32) -> (asset: Option<Asset>)
        requires
            self.wf(),
        ensures
            match asset {
                Some(a) => self@.assets.contains_key((address@, chain_id)) && a == self@.assets[(
                    address@,
                    chain_id,
                )].asset,
                None => !self@.assets.contains_key((address@, chain_id)),
            },
    {
        match self.position(&address, chain_id) {
            Some(i) => {
                proof {
                    lemma_table_index(self.assets@, asset_key(), i as int);
                }
                Some(self.assets[i].asset.duplicate())
            },
            None => None,
        }
    }

    /// The assets listed on a chain: each listed asset of the chain occurs,
    /// and nothing else.
    pub fn get_assets_for_chain(&self, chain_id: u32) -> (listed: Vec<Asset>)
        requires
            self.wf(),
        ensures
            forall|j: int| 0 <= j < listed@.len() ==> #[trigger] lists_on_chain(self@.assets, chain_id, listed@[j]),
            forall|k: (Seq<u8>, u32)|
                k.1 == chain_id && #[trigger] self@.assets.contains_key(k) ==> listed@.contains(
                    self@.assets[k].asset,
                ),
    {
        let n = self.assets.len();
        let mut out: Vec<Asset> = Vec::new();
        for i in 0..n
            invariant
                n == self.assets@.len(),
                keys_unique(self.assets@, asset_key()),
                forall|j: int| 0 <= j < out@.len() ==> #[trigger] lists_on_chain(self@.assets, chain_id, out@[j]),
                forall|m: int|
                    0 <= m < i && #[trigger] self.assets@[m].chain_id == chain_id ==> out@.contains(
                        self.assets@[m].asset,
                    ),
        {
            proof {
                lemma_table_index(self.assets@, asset_key(), i as int);
            }
            if self.assets[i].chain_id == chain_id {
                let ghost before = out@;
                out.push(self.assets[i].asset.duplicate());
                proof {
                    let key = (self.assets@[i as int].address@, chain_id);
                    assert(self@.assets.contains_key(key));
                    assert forall|j: int| 0 <= j < out@.len() implies #[trigger] lists_on_chain(self@.assets, chain_id, out@[j]) by {
                        if j < before.len() {
                            assert(out@[j] == before[j]);
                            assert(lists_on_chain(self@.assets, chain_id, before[j]));
                        } else {
                            assert(self@.assets[key].asset == out@[j]);
                        }
                    }
                    assert forall|m: int|
                        0 <= m < i + 1 && #[trigger] self.assets@[m].chain_id == chain_id implies out@.contains(
                        self.assets@[m].asset,
                    ) by {
                        if m < i {
                            assert(before.contains(self.assets@[m].asset));
                            let j = choose|j: int| 0 <= j < before.len() && before[j] == self.assets@[m].asset;
                            assert(out@[j] == before[j]);
                        } else {
                            assert(out@[before.len() as int] == self.assets@[m].asset);
                        }
                    }
                }
            }
        }
        proof {
            assert forall|k: (Seq<u8>, u32)|
                k.1 == chain_id && #[trigger] self@.assets.contains_key(k) implies out@.contains(
                self@.assets[k].asset,
            ) by {
                let m = key_position(self.assets@, asset_key(), k);
                lemma_table_index(self.assets@, asset_key(), m);
                assert(self.assets@[m].chain_id == chain_id);
            }
        }
        out
    }
}

/// `asset` is listed under some key on chain `chain_id`.
pub open spec fn lists_on_chain(assets: Map<(Seq<u8>, u32), AssetEntry>, chain_id: u32, asset: Asset) -> bool {
    exists|k: (Seq<u8>, u32)| k.1 == chain_id && #[trigger] assets.contains_key(k) && assets[k].asset == asset
}

} // verus!
