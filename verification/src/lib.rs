//! A verified execution router for chained liquidity-pool swaps and composed
//! lending operations.
//!
//! The library resolves exact token amounts across one or more chained pool
//! hops, apportions split amounts over parallel paths, enforces slippage and
//! deadline bounds, and threads a call-scoped balance ledger through a
//! composed sequence of swap and lending actions, all-or-nothing.
//!
//! Every entry point is specified against a small functional interpreter
//! (`spec` functions over sequences and maps), so the executable code is
//! proved to compute exactly what the interpreter says.
//!
//! The engine models amounts, reserves and market books; transfer plumbing
//! is carried as data, not interpreted: a hop's `receiver` identity and a
//! path's transfer-in flag are forwarded verbatim to the hosting
//! transaction, and everything a call produces or consumes meets in the one
//! call-scoped balance ledger.

pub mod compose;
pub mod laws;
pub mod exact_in;
pub mod exact_out;
pub mod market;
pub mod math;
pub mod params;
pub mod pool;
pub mod route;
pub mod sheet;
pub mod swap;
pub mod types;
