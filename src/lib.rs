//! Arbitrage cycle discovery, pricing and incremental re-evaluation over a set of
//! constant-product and stable-swap liquidity pools.

pub mod bytes;
pub mod curve;
pub mod pool;
pub mod cycles;
pub mod price;
pub mod bits;
pub mod printer;
pub mod scheduler;
pub mod raydium;
pub mod stable;
pub mod token_swap;
