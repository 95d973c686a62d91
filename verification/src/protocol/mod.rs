//! Wire framing of the upstream links.

pub mod i2c;
pub mod spi;
pub mod slot;
pub mod transfer;
