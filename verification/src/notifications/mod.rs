//! Desktop notifications: the notifications themselves, the daemon that
//! receives them, and what a sender hands to a notification server.
pub mod types;
pub mod action;
pub mod notification;
pub mod daemon;
pub mod send;
