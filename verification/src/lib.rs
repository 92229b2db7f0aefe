//! Core logic of a multi-tenant authenticating HTTP reverse proxy: the data
//! model, the per-instance service registry, request accounting, the
//! forwarding decisions and the management operations.

pub mod addr;
pub mod api;
pub mod client;
pub mod codec;
pub mod conf;
pub mod config;
pub mod deser;
pub mod error;
pub mod handler;
pub mod launcher;
pub mod lock;
pub mod manager;
pub mod model;
pub mod proxy;
pub mod rewrite;
pub mod runtime;
pub mod service;
pub mod state;
pub mod stats;
pub mod strmap;
pub mod text;
pub mod tls;
pub mod uri;
