//! The verified core of fido2kpxc: a vault that unlocks KeePassXC with a FIDO2 security key.

pub mod cli;
pub mod config;
pub mod crypto;
pub mod error;
pub mod fido;
pub mod kpxc;
pub mod ops;
pub mod panels;
pub mod path;
pub mod release;
pub mod text;
pub mod ui;
pub mod vault;
pub mod walk;
