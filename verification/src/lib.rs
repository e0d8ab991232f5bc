//! Call handling for a SIP proxy.
//!
//! [`call`] is the call module: it passes INVITE and BYE requests on to where the callee is, and
//! keeps a session for each call that has been accepted. It does no input or output. A transaction
//! is handled in steps, each of which says what is to be done next ([`protocol`]); [`steps`] says
//! what every step leads to. [`meaning`] and [`behaviour`] say what that comes to, by what goes in and
//! what comes out, and [`properties`] what holds of whole transactions and of the sessions.

pub mod behaviour;
pub mod call;
pub mod config;
pub mod dialog;
pub mod meaning;
pub mod outside;
pub mod properties;
pub mod protocol;
pub mod sessions;
pub mod sip;
pub mod steps;
pub mod text;
