//! Upstream transports and the queues between them and the Ethernet session.

pub mod commands;
pub mod overwrite_queue;
pub mod signals;
pub mod spi_diag;
pub mod spi_pio;
pub mod spi_frame;
pub mod spi_task;
pub mod spi_hw_task;
pub mod runtime;
pub mod spi;
pub mod i2c_task;
pub mod i2c;
pub mod uart;
pub mod test;
pub mod usb;
