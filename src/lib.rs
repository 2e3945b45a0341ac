//! Mirrors every repository of an account from a hosting service onto local
//! disk: the listing is decoded and checked here, the per-repository decision
//! between a fresh mirror clone and a refresh is planned here, and the
//! command lines and the push-rejecting hook are computed here. Running the
//! programs and touching the disk is left to the caller.
pub mod json;
pub mod listing;
pub mod commands;
pub mod reconcile;
