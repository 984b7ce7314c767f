//! The pools that a simulation can run on.
use crate::text::{same_text, to_upper, uppercase};
use vstd::prelude::*;

verus! {

#[derive(Debug)]
pub struct TokenConfig {
    pub symbol: String,
    pub name: String,
    pub decimals: u8,
    pub address: String,
}

#[derive(Debug)]
pub struct PoolConfig {
    pub pool_address: String,
    pub fee_amount: u32,
    pub chain: String,
    pub token0: TokenConfig,
    pub token1: TokenConfig,
    pub volatile_token: TokenRole,
    pub stable_token: TokenRole,
    pub db_path: String,
    pub display_name: String,
}

/// Which token of the pool plays a part.
#[derive(Debug, Clone, Copy, PartialEq, Eq, Structural)]
pub enum TokenRole {
    Token0,
    Token1,
}

impl Clone for TokenConfig {
    fn clone(&self) -> (r: Self)
        ensures
            is_token(r, self.symbol@, self.name@, self.decimals, self.address@),
    {
        TokenConfig {
            symbol: self.symbol.clone(),
            name: self.name.clone(),
            decimals: self.decimals,
            address: self.address.clone(),
        }
    }
}

impl Clone for PoolConfig {
    fn clone(&self) -> (r: Self)
        ensures
            same_pool(r, *self),
    {
        PoolConfig {
            pool_address: self.pool_address.clone(),
            fee_amount: self.fee_amount,
            chain: self.chain.clone(),
            token0: self.token0.clone(),
            token1: self.token1.clone(),
            volatile_token: self.volatile_token,
            stable_token: self.stable_token,
            db_path: self.db_path.clone(),
            display_name: self.display_name.clone(),
        }
    }
}

/// A token by its parts.
pub open spec fn is_token(
    t: TokenConfig,
    symbol: Seq<char>,
    name: Seq<char>,
    decimals: u8,
    address: Seq<char>,
) -> bool {
    &&& t.symbol@ == symbol
    &&& t.name@ == name
    &&& t.decimals == decimals
    &&& t.address@ == address
}

/// Two configurations that say the same.
pub open spec fn same_pool(a: PoolConfig, b: PoolConfig) -> bool {
    &&& a.pool_address@ == b.pool_address@
    &&& a.fee_amount == b.fee_amount
    &&& a.chain@ == b.chain@
    &&& is_token(a.token0, b.token0.symbol@, b.token0.name@, b.token0.decimals, b.token0.address@)
    &&& is_token(a.token1, b.token1.symbol@, b.token1.name@, b.token1.decimals, b.token1.address@)
    &&& a.volatile_token == b.volatile_token
    &&& a.stable_token == b.stable_token
    &&& a.db_path@ == b.db_path@
    &&& a.display_name@ == b.display_name@
}

impl PoolConfig {
    /// Whether token 0 is the volatile one.
    pub open spec fn vol0(&self) -> bool {
        self.volatile_token == TokenRole::Token0
    }

    /// The token in a role.
    pub open spec fn token(&self, role: TokenRole) -> TokenConfig {
        match role {
            TokenRole::Token0 => self.token0,
            TokenRole::Token1 => self.token1,
        }
    }

    pub fn is_volatile_token0(&self) -> (r: bool)
        ensures
            r == self.vol0(),
    {
        self.volatile_token == TokenRole::Token0
    }

    pub fn volatile_decimals(&self) -> (r: u8)
        ensures
            r == self.token(self.volatile_token).decimals,
    {
        match self.volatile_token {
            TokenRole::Token0 => self.token0.decimals,
            TokenRole::Token1 => self.token1.decimals,
        }
    }

    pub fn stable_decimals(&self) -> (r: u8)
        ensures
            r == self.token(self.stable_token).decimals,
    {
        match self.stable_token {
            TokenRole::Token0 => self.token0.decimals,
            TokenRole::Token1 => self.token1.decimals,
        }
    }

    pub fn volatile_symbol(&self) -> (r: &str)
        ensures
            r@ == self.token(self.volatile_token).symbol@,
    {
        match self.volatile_token {
            TokenRole::Token0 => self.token0.symbol.as_str(),
            TokenRole::Token1 => self.token1.symbol.as_str(),
        }
    }

    pub fn stable_symbol(&self) -> (r: &str)
        ensures
            r@ == self.token(self.stable_token).symbol@,
    {
        match self.stable_token {
            TokenRole::Token0 => self.token0.symbol.as_str(),
            TokenRole::Token1 => self.token1.symbol.as_str(),
        }
    }
}

/// The cbBTC-USDC pool on Base.
pub open spec fn is_cbbtc_usdc_base(c: PoolConfig) -> bool {
    &&& c.pool_address@ == "0xeC558e484cC9f2210714E345298fdc53B253c27D"@
    &&& c.fee_amount == 3000
    &&& c.chain@ == "base"@
    &&& is_token(c.token0, "USDC"@, "USD Coin"@, 6, "0x833589fCD6eDb6E08f4c7C32D4f71b54bdA02913"@)
    &&& is_token(c.token1, "cbBTC"@, "Coinbase Wrapped Bitcoin"@, 8, "0xcbB7C0000aB88B473b1f5aFd9ef808440eed33Bf"@)
    &&& c.volatile_token == TokenRole::Token1
    &&& c.stable_token == TokenRole::Token0
    &&& c.db_path@ == "data/cbBTC-USDC-BASE_0xeC558e484cC9f2210714E345298fdc53B253c27D.db"@
    &&& c.display_name@ == "cbBTC-USDC Base 0.3%"@
}

/// The cbBTC-USDC pool on Base.
pub fn cbbtc_usdc_base() -> (r: PoolConfig)
    ensures
        is_cbbtc_usdc_base(r),
{
    PoolConfig {
        pool_address: "0xeC558e484cC9f2210714E345298fdc53B253c27D".to_owned(),
        fee_amount: 3000,
        chain: "base".to_owned(),
        token0: TokenConfig {
            symbol: "USDC".to_owned(),
            name: "USD Coin".to_owned(),
            decimals: 6,
            address: "0x833589fCD6eDb6E08f4c7C32D4f71b54bdA02913".to_owned(),
        },
        token1: TokenConfig {
            symbol: "cbBTC".to_owned(),
            name: "Coinbase Wrapped Bitcoin".to_owned(),
            decimals: 8,
            address: "0xcbB7C0000aB88B473b1f5aFd9ef808440eed33Bf".to_owned(),
        },
        volatile_token: TokenRole::Token1,
        stable_token: TokenRole::Token0,
        db_path: "data/cbBTC-USDC-BASE_0xeC558e484cC9f2210714E345298fdc53B253c27D.db".to_owned(),
        display_name: "cbBTC-USDC Base 0.3%".to_owned(),
    }
}

/// The WBTC-USDC pool on Ethereum.
pub open spec fn is_wbtc_usdc(c: PoolConfig) -> bool {
    &&& c.pool_address@ == "0x99ac8cA7087fA4A2A1FB6357269965A2014ABc35"@
    &&& c.fee_amount == 3000
    &&& c.chain@ == "eth"@
    &&& is_token(c.token0, "WBTC"@, "Wrapped Bitcoin"@, 8, "0x2260FAC5E5542a773Aa44fBCfeDf7C193bc2C599"@)
    &&& is_token(c.token1, "USDC"@, "USD Coin"@, 6, "0xA0b86a33E6417c8Ade68E31cAdE412F9a8f03C5B"@)
    &&& c.volatile_token == TokenRole::Token0
    &&& c.stable_token == TokenRole::Token1
    &&& c.db_path@ == "data/WBTC-USDC_0x99ac8cA7087fA4A2A1FB6357269965A2014ABc35.db"@
    &&& c.display_name@ == "WBTC-USDC 0.3%"@
}

/// The WBTC-USDC pool on Ethereum.
pub fn wbtc_usdc() -> (r: PoolConfig)
    ensures
        is_wbtc_usdc(r),
{
    PoolConfig {
        pool_address: "0x99ac8cA7087fA4A2A1FB6357269965A2014ABc35".to_owned(),
        fee_amount: 3000,
        chain: "eth".to_owned(),
        token0: TokenConfig {
            symbol: "WBTC".to_owned(),
            name: "Wrapped Bitcoin".to_owned(),
            decimals: 8,
            address: "0x2260FAC5E5542a773Aa44fBCfeDf7C193bc2C599".to_owned(),
        },
        token1: TokenConfig {
            symbol: "USDC".to_owned(),
            name: "USD Coin".to_owned(),
            decimals: 6,
            address: "0xA0b86a33E6417c8Ade68E31cAdE412F9a8f03C5B".to_owned(),
        },
        volatile_token: TokenRole::Token0,
        stable_token: TokenRole::Token1,
        db_path: "data/WBTC-USDC_0x99ac8cA7087fA4A2A1FB6357269965A2014ABc35.db".to_owned(),
        display_name: "WBTC-USDC 0.3%".to_owned(),
    }
}

/// The WBTC-vbUSDC pool on Katana with a fee of five basis points. Its addresses, its
/// records and the full names of its tokens are not known.
pub open spec fn is_wbtc_usdc_katana_5bp(c: PoolConfig) -> bool {
    &&& c.pool_address@ == ""@
    &&& c.fee_amount == 500
    &&& c.chain@ == ""@
    &&& is_token(c.token0, "WBTC"@, ""@, 8, ""@)
    &&& is_token(c.token1, "vbUSDC"@, ""@, 6, ""@)
    &&& c.volatile_token == TokenRole::Token0
    &&& c.stable_token == TokenRole::Token1
    &&& c.db_path@ == ""@
    &&& c.display_name@ == ""@
}

/// The WBTC-vbUSDC pool on Katana.
pub fn wbtc_usdc_katana_5bp() -> (r: PoolConfig)
    ensures
        is_wbtc_usdc_katana_5bp(r),
{
    PoolConfig {
        pool_address: "".to_owned(),
        fee_amount: 500,
        chain: "".to_owned(),
        token0: TokenConfig {
            symbol: "WBTC".to_owned(),
            name: "".to_owned(),
            decimals: 8,
            address: "".to_owned(),
        },
        token1: TokenConfig {
            symbol: "vbUSDC".to_owned(),
            name: "".to_owned(),
            decimals: 6,
            address: "".to_owned(),
        },
        volatile_token: TokenRole::Token0,
        stable_token: TokenRole::Token1,
        db_path: "".to_owned(),
        display_name: "".to_owned(),
    }
}

/// The pool with an upper-case name, the cbBTC-USDC pool for a name that is not known.
pub open spec fn is_pool_named(upper: Seq<char>, c: PoolConfig) -> bool {
    if upper == "WBTC_USDC"@ {
        is_wbtc_usdc(c)
    } else if upper == "WBTC_USDC_KATANA_5BP"@ {
        is_wbtc_usdc_katana_5bp(c)
    } else {
        is_cbbtc_usdc_base(c)
    }
}

/// The pool with an upper-case name, the cbBTC-USDC pool for a name that is not known.
pub fn pool_by_upper_name(upper: &str) -> (r: PoolConfig)
    ensures
        is_pool_named(upper@, r),
{
    if same_text(upper, "WBTC_USDC") {
        wbtc_usdc()
    } else if same_text(upper, "WBTC_USDC_KATANA_5BP") {
        wbtc_usdc_katana_5bp()
    } else {
        cbbtc_usdc_base()
    }
}

/// The pool with a name in any case, the cbBTC-USDC pool for a name that is not known.
pub fn pool_by_name(name: &str) -> (r: PoolConfig)
    ensures
        is_pool_named(uppercase(name@), r),
{
    let upper: String = to_upper(name);
    pool_by_upper_name(upper.as_str())
}

} // verus!
