pub mod charset;
pub mod passphrase;
pub mod random;
