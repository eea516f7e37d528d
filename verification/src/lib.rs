//! The decision logic of the Fingest clients: how a failure is categorised and worded,
//! which module a session may reach, what a form accepts, how money and dates are read
//! and shown, and what each use case sends before and announces after a call.
pub mod text;
pub mod error;
pub mod response;
pub mod events;
pub mod session;
pub mod storage;
pub mod modules;
pub mod web;
pub mod mobile;
pub mod manifest;
pub mod url;
pub mod transport;
pub mod date;
pub mod money;
pub mod dto;
pub mod forecast;
pub mod view;
pub mod forms;
pub mod catalog;
pub mod identity;
pub mod planning;
pub mod wallets;
