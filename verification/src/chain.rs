//! The chain's vocabulary: coins, denominations, headers and pools as plain values.

use vstd::prelude::*;

verus! {

/// How many micro-units make one unit of a coin.
pub const MICROS: u128 = 1_000_000;

/// A coin denomination.
#[derive(Clone, Copy, Debug, PartialEq, Eq)]
pub enum Denom {
    Mel,
    Sym,
    Erg,
    /// A token that the transaction itself creates.
    NewCustom,
    /// A token created by the transaction with this hash.
    Custom([u8; 32]),
}

/// What a transaction is for. Only the kinds that a minter sends are here.
#[derive(Clone, Copy, Debug, PartialEq, Eq)]
pub enum TxKind {
    Normal,
    DoscMint,
    Swap,
}

/// A network.
#[derive(Clone, Copy, Debug, PartialEq, Eq, Structural)]
pub enum NetID {
    Testnet,
    Custom02,
    Custom03,
    Custom04,
    Custom05,
    Custom06,
    Custom07,
    Custom08,
    Mainnet,
}

/// Identifies a coin: an output, by index, of the transaction with the given hash.
#[derive(Clone, Copy, Debug, PartialEq, Eq)]
pub struct CoinID {
    pub txhash: [u8; 32],
    pub index: u8,
}

/// What a coin is: whose it is, what it is worth, and in which denomination.
#[derive(Debug, PartialEq, Eq)]
pub struct CoinData {
    pub covhash: [u8; 32],
    pub value: u128,
    pub denom: Denom,
    pub additional_data: Vec<u8>,
}

/// A coin together with the height of the block that holds it.
#[derive(Debug, PartialEq, Eq)]
pub struct CoinDataHeight {
    pub coin_data: CoinData,
    pub height: u64,
}

/// The mathematical content of a [`CoinData`].
#[verifier::ext_equal]
pub struct CoinDataView {
    pub covhash: [u8; 32],
    pub value: u128,
    pub denom: Denom,
    pub additional_data: Seq<u8>,
}

/// The mathematical content of a [`CoinDataHeight`].
#[verifier::ext_equal]
pub struct CoinDataHeightView {
    pub coin_data: CoinDataView,
    pub height: u64,
}

impl View for CoinData {
    type V = CoinDataView;

    open spec fn view(&self) -> CoinDataView {
        CoinDataView {
            covhash: self.covhash,
            value: self.value,
            denom: self.denom,
            additional_data: self.additional_data@,
        }
    }
}

impl View for CoinDataHeight {
    type V = CoinDataHeightView;

    open spec fn view(&self) -> CoinDataHeightView {
        CoinDataHeightView { coin_data: self.coin_data@, height: self.height }
    }
}

impl Clone for CoinData {
    fn clone(&self) -> (copy: Self)
        ensures
            copy@ == self@,
    {
        let additional_data = self.additional_data.clone();
        assert(additional_data@ =~= self.additional_data@);
        CoinData { covhash: self.covhash, value: self.value, denom: self.denom, additional_data }
    }
}

impl Clone for CoinDataHeight {
    fn clone(&self) -> (copy: Self)
        ensures
            copy@ == self@,
    {
        CoinDataHeight { coin_data: self.coin_data.clone(), height: self.height }
    }
}

/// Whether two 32-byte strings are the same.
pub fn same_hash(a: &[u8; 32], b: &[u8; 32]) -> (same: bool)
    ensures
        same == (*a == *b),
{
    let mut i: usize = 0;
    while i < 32
        invariant
            i <= 32,
            forall|j: int| 0 <= j < i ==> a[j] == b[j],
        decreases 32 - i,
    {
        if a[i] != b[i] {
            return false;
        }
        i = i + 1;
    }
    assert(*a =~= *b);
    true
}

impl Denom {
    /// Whether this is some token created by an earlier transaction.
    pub fn is_custom(&self) -> (yes: bool)
        ensures
            yes == (*self is Custom),
    {
        match self {
            Denom::Custom(_) => true,
            _ => false,
        }
    }

    /// Whether two denominations are the same.
    pub fn same(&self, other: &Denom) -> (same: bool)
        ensures
            same == (*self == *other),
    {
        match (self, other) {
            (Denom::Mel, Denom::Mel) => true,
            (Denom::Sym, Denom::Sym) => true,
            (Denom::Erg, Denom::Erg) => true,
            (Denom::NewCustom, Denom::NewCustom) => true,
            (Denom::Custom(a), Denom::Custom(b)) => same_hash(a, b),
            _ => false,
        }
    }
}

impl TxKind {
    /// The byte that stands for the kind on the wire.
    pub open spec fn spec_code(self) -> u8 {
        match self {
            TxKind::Normal => 0x00,
            TxKind::DoscMint => 0x50,
            TxKind::Swap => 0x51,
        }
    }
}

impl NetID {
    /// The byte that stands for the network on the wire.
    pub open spec fn spec_code(self) -> u8 {
        match self {
            NetID::Testnet => 0x01,
            NetID::Custom02 => 0x02,
            NetID::Custom03 => 0x03,
            NetID::Custom04 => 0x04,
            NetID::Custom05 => 0x05,
            NetID::Custom06 => 0x06,
            NetID::Custom07 => 0x07,
            NetID::Custom08 => 0x08,
            NetID::Mainnet => 0xff,
        }
    }

    /// Whether a byte stands for some network.
    pub open spec fn is_code(code: u8) -> bool {
        exists|net: NetID| #[trigger] net.spec_code() == code
    }

    /// The byte that stands for the network on the wire.
    pub fn code(&self) -> (code: u8)
        ensures
            code == self.spec_code(),
    {
        match self {
            NetID::Testnet => 0x01,
            NetID::Custom02 => 0x02,
            NetID::Custom03 => 0x03,
            NetID::Custom04 => 0x04,
            NetID::Custom05 => 0x05,
            NetID::Custom06 => 0x06,
            NetID::Custom07 => 0x07,
            NetID::Custom08 => 0x08,
            NetID::Mainnet => 0xff,
        }
    }

    /// The network that a byte stands for, where there is one.
    pub fn from_code(code: u8) -> (net: Option<NetID>)
        ensures
            net is Some == NetID::is_code(code),
            net matches Some(n) ==> n.spec_code() == code,
    {
        let net = match code {
            0x01 => Some(NetID::Testnet),
            0x02 => Some(NetID::Custom02),
            0x03 => Some(NetID::Custom03),
            0x04 => Some(NetID::Custom04),
            0x05 => Some(NetID::Custom05),
            0x06 => Some(NetID::Custom06),
            0x07 => Some(NetID::Custom07),
            0x08 => Some(NetID::Custom08),
            0xff => Some(NetID::Mainnet),
            _ => None,
        };
        if let Some(n) = net {
            assert(n.spec_code() == code);
        }
        net
    }
}

/// A block header.
#[derive(Clone, Copy, Debug)]
pub struct Header {
    pub network: NetID,
    pub previous: [u8; 32],
    pub height: u64,
    pub history_hash: [u8; 32],
    pub coins_hash: [u8; 32],
    pub transactions_hash: [u8; 32],
    pub fee_pool: u128,
    pub fee_multiplier: u128,
    pub dosc_speed: u128,
    pub pools_hash: [u8; 32],
    pub stakes_hash: [u8; 32],
}

/// The reserves of a liquidity pool.
#[derive(Clone, Copy, Debug)]
pub struct PoolState {
    pub lefts: u128,
    pub rights: u128,
    pub price_accum: u128,
    pub liqs: u128,
}

/// Each network has a byte of its own, and the numbered ones have their number.
pub proof fn law_networks_have_their_bytes(a: NetID, b: NetID)
    ensures
        a.spec_code() == b.spec_code() ==> a == b,
        NetID::Testnet.spec_code() == 1,
        NetID::Custom02.spec_code() == 2,
        NetID::Custom03.spec_code() == 3,
        NetID::Custom04.spec_code() == 4,
        NetID::Custom05.spec_code() == 5,
        NetID::Custom06.spec_code() == 6,
        NetID::Custom07.spec_code() == 7,
        NetID::Custom08.spec_code() == 8,
        NetID::Mainnet.spec_code() == 255,
{
}

/// A byte stands for a network if and only if it is one of the nine.
pub proof fn law_nine_bytes_are_networks(code: u8)
    ensures
        NetID::is_code(code) <==> (1 <= code <= 8 || code == 255),
{
    assert(NetID::Testnet.spec_code() == 1 && NetID::Custom02.spec_code() == 2);
    assert(NetID::Custom03.spec_code() == 3 && NetID::Custom04.spec_code() == 4);
    assert(NetID::Custom05.spec_code() == 5 && NetID::Custom06.spec_code() == 6);
    assert(NetID::Custom07.spec_code() == 7 && NetID::Custom08.spec_code() == 8);
    assert(NetID::Mainnet.spec_code() == 255);
}

/// The kinds of transactions have their bytes on the wire.
pub proof fn law_kinds_have_their_bytes()
    ensures
        TxKind::Normal.spec_code() == 0,
        TxKind::DoscMint.spec_code() == 80,
        TxKind::Swap.spec_code() == 81,
{
}

/// The content of a coin is all that it holds.
pub proof fn law_coins_are_known_by_all_they_hold(coin: CoinDataHeight)
    ensures
        coin@.height == coin.height,
        coin@.coin_data == coin.coin_data@,
        coin.coin_data@.covhash == coin.coin_data.covhash,
        coin.coin_data@.value == coin.coin_data.value,
        coin.coin_data@.denom == coin.coin_data.denom,
        coin.coin_data@.additional_data == coin.coin_data.additional_data@,
{
}

} // verus!
