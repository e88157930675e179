//! Core of a reverse proxy that balances HTTP requests over pools of backend
//! servers: health classification and change-only publication, backend
//! selection with cookie affinity, and the header-level handler pipeline.

pub mod health;
pub mod lb_strategy;
pub mod middleware;
pub mod server;
pub mod text;
