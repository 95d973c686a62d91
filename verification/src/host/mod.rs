//! Host side of the framed transports.

pub mod i2c_backend;
pub mod spi_backend;
