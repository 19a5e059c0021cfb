//! An event-driven relayer across chains: users register and receive a
//! relayer key, bind an action template to a log subscription on a chain,
//! and every matching log is rendered into a transaction signed with the
//! user's relayer key and sent back to the same chain.
//!
//! `template` renders templates; `worker` keeps one chain's subscriptions;
//! `registry` tracks the chains and their workers; `handler` owns users,
//! keys, actions and update logs; `relay` drives a handler and its workers
//! together; `auth` checks signed requests.
#![allow(non_camel_case_types)]
#![allow(non_snake_case)]

pub mod error;
pub mod hexfmt;
pub mod address;
pub mod abi;
pub mod types;
pub mod template;
pub mod handler;
pub mod worker;
pub mod registry;
pub mod relay;
pub mod auth;
pub mod tables;
