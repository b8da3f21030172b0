//! The closed currency-identifier space: network tokens, swap-share pairs,
//! bridged contract assets and cross-chain resources, as one tagged sum.

use vstd::prelude::*;

verus! {

/// One of the network's own token symbols.
#[derive(Clone, Copy, Debug, PartialEq, Eq, Structural)]
pub enum TokenSymbol {
    /// The native reserve token.
    DNAR,
    /// The swap-venue token.
    DRAM,
    /// The reserve-pegged settlement currency.
    SETR,
    /// The dollar-pegged currency.
    SETUSD,
    /// The euro-pegged currency.
    SETEUR,
    /// The pound-pegged currency.
    SETGBP,
    /// The franc-pegged currency.
    SETCHF,
    /// The riyal-pegged currency.
    SETSAR,
    /// A bridged bitcoin representation.
    RENBTC,
    /// Fiat price-feed references.
    USD,
    EUR,
    GBP,
    CHF,
    SAR,
    KWD,
    JOD,
    BHD,
    KYD,
    OMR,
    GIP,
}

/// A contract address on the bridged execution layer, carried as an opaque
/// identifier: nothing in this crate reads its content.
#[derive(Clone, Copy, Debug, PartialEq, Eq, Structural)]
pub struct EvmAddress {
    pub raw: u64,
}

/// A cross-chain resource identifier, carried opaquely.
#[derive(Clone, Copy, Debug, PartialEq, Eq, Structural)]
pub struct ResourceId {
    pub raw: u64,
}

/// One side of a swap-share pair.
#[derive(Clone, Copy, Debug, PartialEq, Eq, Structural)]
pub enum DexShare {
    Token(TokenSymbol),
    Erc20(EvmAddress),
}

/// A currency identifier.
#[derive(Clone, Copy, Debug, PartialEq, Eq, Structural)]
pub enum CurrencyId {
    Token(TokenSymbol),
    DexShare(DexShare, DexShare),
    Erc20(EvmAddress),
    ChainSafe(ResourceId),
}

/// The currency a swap-share side stands for.
pub open spec fn spec_dex_share_currency(share: DexShare) -> CurrencyId {
    match share {
        DexShare::Token(symbol) => CurrencyId::Token(symbol),
        DexShare::Erc20(address) => CurrencyId::Erc20(address),
    }
}

impl DexShare {
    /// The currency this swap-share side stands for.
    pub fn into_currency_id(self) -> (r: CurrencyId)
        ensures
            r == spec_dex_share_currency(self),
    {
        match self {
            DexShare::Token(symbol) => CurrencyId::Token(symbol),
            DexShare::Erc20(address) => CurrencyId::Erc20(address),
        }
    }
}

impl CurrencyId {
    /// Whether this is a plain token currency.
    pub fn is_token_currency_id(&self) -> (r: bool)
        ensures
            r == self is Token,
    {
        matches!(self, CurrencyId::Token(_))
    }

    /// Whether this is a swap-share pair currency.
    pub fn is_dex_share_currency_id(&self) -> (r: bool)
        ensures
            r == self is DexShare,
    {
        matches!(self, CurrencyId::DexShare(_, _))
    }

    /// Whether this is a bridged contract currency.
    pub fn is_erc20_currency_id(&self) -> (r: bool)
        ensures
            r == self is Erc20,
    {
        matches!(self, CurrencyId::Erc20(_))
    }

    /// The two currencies underlying a swap-share pair, or nothing for any
    /// other kind of currency.
    pub fn split_dex_share_currency_id(&self) -> (r: Option<(CurrencyId, CurrencyId)>)
        ensures
            r == match *self {
                CurrencyId::DexShare(share_0, share_1) => Some(
                    (spec_dex_share_currency(share_0), spec_dex_share_currency(share_1)),
                ),
                _ => None::<(CurrencyId, CurrencyId)>,
            },
    {
        match self {
            CurrencyId::DexShare(share_0, share_1) => {
                let currency_id_0 = share_0.into_currency_id();
                let currency_id_1 = share_1.into_currency_id();
                Some((currency_id_0, currency_id_1))
            },
            _ => None,
        }
    }

    /// The swap-share pair built from two currencies, when both can stand
    /// as a share side (tokens and bridged contracts only).
    pub fn join_dex_share_currency_id(currency_id_0: Self, currency_id_1: Self) -> (r: Option<
        CurrencyId,
    >)
        ensures
            r == match (currency_id_0, currency_id_1) {
                (CurrencyId::Token(s0), CurrencyId::Token(s1)) => Some(
                    CurrencyId::DexShare(DexShare::Token(s0), DexShare::Token(s1)),
                ),
                (CurrencyId::Token(s0), CurrencyId::Erc20(a1)) => Some(
                    CurrencyId::DexShare(DexShare::Token(s0), DexShare::Erc20(a1)),
                ),
                (CurrencyId::Erc20(a0), CurrencyId::Token(s1)) => Some(
                    CurrencyId::DexShare(DexShare::Erc20(a0), DexShare::Token(s1)),
                ),
                (CurrencyId::Erc20(a0), CurrencyId::Erc20(a1)) => Some(
                    CurrencyId::DexShare(DexShare::Erc20(a0), DexShare::Erc20(a1)),
                ),
                _ => None::<CurrencyId>,
            },
    {
        let dex_share_0 = match currency_id_0 {
            CurrencyId::Token(symbol) => DexShare::Token(symbol),
            CurrencyId::Erc20(address) => DexShare::Erc20(address),
            _ => {
                return None;
            },
        };
        let dex_share_1 = match currency_id_1 {
            CurrencyId::Token(symbol) => DexShare::Token(symbol),
            CurrencyId::Erc20(address) => DexShare::Erc20(address),
            _ => {
                return None;
            },
        };
        Some(CurrencyId::DexShare(dex_share_0, dex_share_1))
    }
}

} // verus!
