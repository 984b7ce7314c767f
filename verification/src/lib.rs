//! A simulator of a leveraged liquidity vault on a concentrated-liquidity pool.
//!
//! From the bottom up:
//! - numbers and texts: `arith`, `limbs`, `text`, `types`, `parse`, `order`, `dates`, `json`;
//! - the mathematics of prices and liquidity: `full_math`, `liquidity_math`, `log2`,
//!   `tick_math`, `sqrt_price_math`, `swap_math`, `swap_laws`;
//! - the pool: `tick`, `tick_manager`, `position`, `position_manager`, `pool_model`,
//!   `core_pool`, `pool_laws`, `fee_laws`, `pool_history`, `engine`, `arb`, `arb_laws`;
//! - the vault: `vault_math`, `vault_model`, `debt_model`, `lev_model`, `vault`,
//!   `vault_liquidity`, `vault_debt`, `vault_lev`, `vault_fair`, `vault_recenter`,
//!   `vault_laws`, `value_laws`, `share_laws`, `debt_laws`, `lev_laws`, `fair_laws`,
//!   `recenter_laws`;
//! - the simulation: `enums`, `pool_config`, `config`, `event_reader`, `price_feed`,
//!   `feed_laws`, `reading_laws`, `strategy_model`, `strategy`, `strategy_laws`,
//!   `period_laws`, `records`, `output`.
//!
//! A model says in integers without bounds what an operation does, and has no outcome
//! (`None`) where the operation is not possible. The executable function of the same
//! module group is proved to do just that: the form whose name starts with `try_` reports
//! that it was not possible, the other one asks that it is. A file of laws states what
//! holds of several operations together.
pub mod arb;
pub mod arb_laws;
pub mod arith;
pub mod config;
pub mod core_pool;
pub mod dates;
pub mod debt_laws;
pub mod debt_model;
pub mod engine;
pub mod enums;
pub mod event_reader;
pub mod fair_laws;
pub mod fee_laws;
pub mod feed_laws;
pub mod full_math;
pub mod json;
pub mod lev_laws;
pub mod lev_model;
pub mod limbs;
pub mod liquidity_math;
pub mod log2;
pub mod order;
pub mod output;
pub mod parse;
pub mod period_laws;
pub mod pool_config;
pub mod pool_history;
pub mod pool_laws;
pub mod pool_model;
pub mod position;
pub mod position_manager;
pub mod price_feed;
pub mod reading_laws;
pub mod recenter_laws;
pub mod records;
pub mod share_laws;
pub mod sqrt_price_math;
pub mod strategy;
pub mod strategy_laws;
pub mod strategy_model;
pub mod swap_laws;
pub mod swap_math;
pub mod text;
pub mod tick;
pub mod tick_manager;
pub mod tick_math;
pub mod types;
pub mod value_laws;
pub mod vault;
pub mod vault_debt;
pub mod vault_fair;
pub mod vault_laws;
pub mod vault_lev;
pub mod vault_liquidity;
pub mod vault_math;
pub mod vault_model;
pub mod vault_recenter;
