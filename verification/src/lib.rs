//! Core logic of the ticket-rush client: request signatures, cookie
//! handling, order-flow decisions and notification dispatch.

pub mod text;
pub mod outside;
pub mod fe_sign;
pub mod http;
pub mod cookies;
pub mod cookie_manager;
pub mod codec;
pub mod json;
pub mod push;
pub mod api;
pub mod vault;
pub mod config;
pub mod input;
pub mod taskmanager;
pub mod gen_cp;
pub mod grab;
