//! A small engine for generating random secrets — fixed-charset passwords,
//! multi-word passphrases, and version-4 UUIDs — together with strength
//! reporting for the generated strings.
//!
//! The engine is stateless: each generation call builds its alphabet from an
//! explicit policy record, draws from the platform's secure random source, and
//! hands the finished string back to the caller. Terminal formatting, clipboard
//! access and argument parsing are left to the surrounding application.

pub mod entropy;
pub mod generator;
pub mod profile;
pub mod text;
pub mod wordlist;
