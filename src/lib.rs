//! Accounting core of a constant-product automated market maker: exact
//! wide arithmetic, integer square roots, reduced fractions, swap curves and
//! the pool's deposit, withdraw and swap decisions. Beside it stand the rules
//! of the contracts that share its arithmetic and ledger: vesting, a payment
//! channel, whitelisted governance and a multisig wallet.

pub mod wide;
pub mod sqrt;
pub mod rational;
pub mod curve;
pub mod cpamm;
pub mod csamm;
pub mod pool;
pub mod vesting;
pub mod payment_channel;
pub mod governance;
pub mod multisig;
pub mod soroswap;
