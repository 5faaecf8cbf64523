//! A verified core for a fixed-size worker pool: the closable job queue, the
//! worker life cycle and the pool's bookkeeping, each with a contract over a
//! mathematical model.

pub mod queue;
pub mod worker;
pub mod model;
pub mod laws;
pub mod pool;
pub mod http;
