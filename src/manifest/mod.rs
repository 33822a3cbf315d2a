//! A region's manifest: an append-only log of metadata actions with
//! checkpoints that fold a prefix of it.

pub mod action;
pub mod region;
