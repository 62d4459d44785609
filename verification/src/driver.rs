//! Driver contracts of the board binding. The runtime is parameterized over
//! these traits; concrete hardware drivers implement them outside the
//! library. None of the methods carries a contract: what a board's hardware
//! does is outside what the runtime can state.

use vstd::prelude::*;

verus! {

/// Error a driver reports, as a byte message.
#[derive(Debug)]
pub struct DriverError {
    /// Human-readable description.
    pub msg: Vec<u8>,
}

impl DriverError {
    /// Wrap a byte message.
    pub fn new(msg: Vec<u8>) -> (r: DriverError)
        ensures
            r.msg == msg,
    {
        DriverError { msg }
    }

    /// The byte message.
    pub fn message(&self) -> (r: &Vec<u8>)
        ensures
            r == &self.msg,
    {
        &self.msg
    }
}

/// Common lifecycle of every driver.
pub trait Driver {
    /// Bring the device up.
    fn driver_init(&mut self) -> Result<(), DriverError>;

    /// Shut the device down.
    fn driver_deinit(&mut self) -> Result<(), DriverError>;
}

/// The CPU hook surface: reset and fatal-error handling. Implementations of
/// both operations are expected not to return control to the runtime.
pub trait CpuDriver {
    /// Reset the machine.
    fn cpu_reset(&mut self);

    /// Report a fatal error and halt.
    fn cpu_panic(&mut self, panic_info: Vec<u8>);
}

/// Monotonic millisecond clock. `get_system_ms` wraps around at 32 bits.
pub trait SysTickDriver: Driver {
    /// Milliseconds since an arbitrary origin, wrapping at 32 bits.
    fn get_system_ms(&mut self) -> u32;

    /// Busy-wait for this many milliseconds.
    fn delay_ms(&mut self, ms: u32);
}

/// Byte-oriented character I/O with a latched break (Ctrl-C) side channel.
pub trait TtyDriver: Driver {
    /// Non-blocking read of one byte.
    fn tty_getc(&mut self) -> Option<u8>;

    /// Enqueue one byte for transmission.
    fn tty_putc(&mut self, byte: u8);

    /// Drain the transmit path.
    fn tty_flush(&mut self);

    /// Return and clear the latched "Ctrl-C received" flag.
    fn tty_get_break(&mut self) -> bool;

    /// Drain pending input, including latched breaks.
    fn tty_clear_rx(&mut self);

    /// Read bytes into `buffer` until it is full or input runs dry; the
    /// number of bytes read is returned.
    fn tty_read(&mut self, buffer: &mut Vec<u8>) -> usize;

    /// Write all bytes of `data`, emitting a carriage return before each
    /// newline.
    fn tty_write(&mut self, data: &Vec<u8>);
}

/// General-purpose pin.
pub trait GpioDriver: Driver {
    /// Drive the pin high (`true`) or low (`false`).
    fn gpio_write(&mut self, value: bool);

    /// Sample the pin.
    fn gpio_read(&mut self) -> bool;
}

/// Serial peripheral bus controller with one chip-select pin.
pub trait SpiDriver: Driver {
    /// Full-duplex transfer: shift `data` out, collect `buffer.len()` bytes.
    fn spi_write_read(&mut self, data: &Vec<u8>, buffer: &mut Vec<u8>) -> Result<(), DriverError>;

    /// Drive the chip-select pin low (active).
    fn spi_cs_activate(&mut self);

    /// Drive the chip-select pin high (inactive).
    fn spi_cs_deactivate(&mut self);
}

/// Two-wire bus controller.
pub trait I2cDriver: Driver {
    /// Write `data` to the device at `addr`.
    fn i2c_write(&mut self, addr: u16, data: &Vec<u8>) -> Result<(), DriverError>;

    /// Read `buffer.len()` bytes from the device at `addr`.
    fn i2c_read(&mut self, addr: u16, buffer: &mut Vec<u8>) -> Result<(), DriverError>;
}

/// Flash/memory-technology device addressed in bytes.
pub trait MtdDriver: Driver {
    /// Read `buffer.len()` bytes starting at `addr`.
    fn mtd_read(&mut self, addr: u32, buffer: &mut Vec<u8>) -> Result<(), DriverError>;

    /// Program `data` starting at `addr`.
    fn mtd_write(&mut self, addr: u32, data: &Vec<u8>) -> Result<(), DriverError>;

    /// Erase `size` bytes starting at `addr`.
    fn mtd_erase(&mut self, addr: u32, size: u32) -> Result<(), DriverError>;

    /// Total device size in bytes.
    fn size(&mut self) -> u32;

    /// Erase granularity in bytes.
    fn erase_size(&mut self) -> u32;

    /// Program granularity in bytes.
    fn write_size(&mut self) -> u32;
}

/// Raw UART transmit path underneath the buffered [`crate::uart::UartBuf`].
pub trait UartDriver {
    /// Bring the port up.
    fn drv_init(&mut self);

    /// Transmit all bytes of `data`.
    fn drv_write(&mut self, data: &Vec<u8>);
}

/// A pin driver that accepts writes and always reads low; a placeholder for
/// boards without the pin.
pub struct DummyGpio {}

impl Driver for DummyGpio {
    fn driver_init(&mut self) -> Result<(), DriverError> {
        Ok(())
    }

    fn driver_deinit(&mut self) -> Result<(), DriverError> {
        Ok(())
    }
}

impl GpioDriver for DummyGpio {
    fn gpio_write(&mut self, _value: bool) {
    }

    fn gpio_read(&mut self) -> bool {
        false
    }
}

} // verus!
