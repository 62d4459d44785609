//! Suspension primitives, the board binding, the buffered UART and the lazy
//! containers.

use simple_os::driver::{
    CpuDriver, Driver, DriverError, DummyGpio, GpioDriver, SysTickDriver, TtyDriver, UartDriver,
};
use simple_os::lazy::{Lazy, LazyInit};
use simple_os::sys::{
    join, select, sleep_ms, yield_now, Pollable, Select2Output, SimpleOs,
};
use simple_os::uart::UartBuf;

#[test]
fn yield_completes_on_the_second_poll() {
    let mut y = yield_now();
    assert_eq!(y.poll(0), None);
    assert_eq!(y.poll(0), Some(()));
}

#[test]
fn sleep_completes_at_its_deadline() {
    let mut s = sleep_ms(100, 30);
    assert_eq!(s.poll(100), None);
    assert_eq!(s.poll(129), None);
    assert_eq!(s.poll(130), Some(()));
    assert_eq!(s.poll(5000), Some(()));
}

#[test]
fn sleep_is_wrap_aware() {
    // Starting just below the clock's wrap point, the deadline lies past it.
    let start = u32::MAX - 5;
    let mut s = sleep_ms(start, 10);
    assert_eq!(s.poll(u32::MAX), None);
    assert_eq!(s.poll(3), None);
    assert_eq!(s.poll(4), Some(()));
}

#[test]
fn sleep_zero_never_suspends() {
    let mut s = sleep_ms(42, 0);
    assert_eq!(s.poll(42), Some(()));
    let mut s = sleep_ms(u32::MAX, 0);
    assert_eq!(s.poll(0), Some(()));
}

#[test]
fn join_completes_when_both_have_completed() {
    let mut j = join(yield_now(), sleep_ms(0, 2));
    assert_eq!(j.poll(0), None);
    assert_eq!(j.poll(1), None);
    assert_eq!(j.poll(2), Some(((), ())));
}

#[test]
fn select_completes_with_the_first_winner() {
    // The yield needs two polls; the zero-sleep is ready at once.
    let mut s = select(yield_now(), sleep_ms(0, 0));
    match s.poll(0) {
        Some(Select2Output::Future2(())) => {}
        _ => panic!("the sleep should win the race"),
    }
    // With the sleep still pending, the yield wins on its second poll.
    let mut s = select(yield_now(), sleep_ms(0, 1000));
    assert!(s.poll(0).is_none());
    match s.poll(1) {
        Some(Select2Output::Future1(())) => {}
        _ => panic!("the yield should win the race"),
    }
}

/// A port driver that records everything handed to it.
struct RecordingPort {
    sent: Vec<u8>,
    inited: bool,
}

impl UartDriver for RecordingPort {
    fn drv_init(&mut self) {
        self.inited = true;
    }
    fn drv_write(&mut self, data: &Vec<u8>) {
        self.sent.extend_from_slice(data);
    }
}

#[test]
fn uart_gathers_writes_until_flush() {
    let port = RecordingPort { sent: Vec::new(), inited: false };
    let mut uart: UartBuf<RecordingPort, 8, 8> = UartBuf::new(port);
    assert!(uart.driver.inited);
    uart.write(&b"abc".to_vec());
    assert!(uart.driver.sent.is_empty());
    uart.flush();
    assert_eq!(uart.driver.sent, b"abc".to_vec());
    // A full transmit ring flushes by itself: nothing is lost.
    uart.write(&b"0123456789".to_vec());
    uart.flush();
    assert_eq!(&uart.driver.sent[3..], b"0123456789");
}

#[test]
fn uart_receive_path() {
    let port = RecordingPort { sent: Vec::new(), inited: false };
    let mut uart: UartBuf<RecordingPort, 8, 8> = UartBuf::new(port);
    assert_eq!(uart.read_byte(), None);
    uart.rx_complete(b'x');
    uart.rx_complete(b'y');
    uart.rx_complete(b'z');
    let mut buf = vec![0u8; 2];
    assert_eq!(uart.read(&mut buf), 2);
    assert_eq!(buf, b"xy".to_vec());
    assert_eq!(uart.read_byte(), Some(b'z'));
    uart.rx_complete(b'q');
    uart.clear_rx();
    assert_eq!(uart.read_byte(), None);
}

struct FakeCpu {
    resets: u32,
}

impl CpuDriver for FakeCpu {
    fn cpu_reset(&mut self) {
        self.resets += 1;
    }
    fn cpu_panic(&mut self, _panic_info: Vec<u8>) {}
}

struct FakeTty {
    written: Vec<u8>,
}

impl Driver for FakeTty {
    fn driver_init(&mut self) -> Result<(), DriverError> {
        Ok(())
    }
    fn driver_deinit(&mut self) -> Result<(), DriverError> {
        Ok(())
    }
}

impl TtyDriver for FakeTty {
    fn tty_getc(&mut self) -> Option<u8> {
        None
    }
    fn tty_putc(&mut self, byte: u8) {
        self.written.push(byte);
    }
    fn tty_flush(&mut self) {}
    fn tty_get_break(&mut self) -> bool {
        false
    }
    fn tty_clear_rx(&mut self) {}
    fn tty_read(&mut self, _buffer: &mut Vec<u8>) -> usize {
        0
    }
    fn tty_write(&mut self, data: &Vec<u8>) {
        self.written.extend_from_slice(data);
    }
}

struct FakeClock {
    now: u32,
}

impl Driver for FakeClock {
    fn driver_init(&mut self) -> Result<(), DriverError> {
        Ok(())
    }
    fn driver_deinit(&mut self) -> Result<(), DriverError> {
        Ok(())
    }
}

impl SysTickDriver for FakeClock {
    fn get_system_ms(&mut self) -> u32 {
        self.now
    }
    fn delay_ms(&mut self, ms: u32) {
        self.now = self.now.wrapping_add(ms);
    }
}

#[test]
fn board_binding_hands_out_its_drivers() {
    let mut os = SimpleOs::init(
        FakeCpu { resets: 0 },
        FakeTty { written: Vec::new() },
        FakeClock { now: 5 },
    );
    os.tty().tty_write(&b"hi".to_vec());
    assert_eq!(os.tty().written, b"hi".to_vec());
    assert_eq!(os.systick().get_system_ms(), 5);
    os.cpu().cpu_reset();
    assert_eq!(os.cpu().resets, 1);
}

#[test]
fn dummy_gpio_reads_low() {
    let mut pin = DummyGpio {};
    assert!(pin.driver_init().is_ok());
    pin.gpio_write(true);
    assert!(!pin.gpio_read());
    assert!(pin.driver_deinit().is_ok());
}

#[test]
fn lazy_makes_its_value_once() {
    let mut cell: Lazy<u32, fn() -> u32> = Lazy::new(|| 41 + 1);
    assert!(cell.get().is_none());
    cell.get_or_init();
    assert_eq!(cell.get(), Some(&42));
    cell.get_or_init();
    assert_eq!(cell.get(), Some(&42));
}

struct CountingDriver {
    inits: u32,
}

impl Driver for CountingDriver {
    fn driver_init(&mut self) -> Result<(), DriverError> {
        self.inits += 1;
        Ok(())
    }
    fn driver_deinit(&mut self) -> Result<(), DriverError> {
        Ok(())
    }
}

#[test]
fn lazy_init_brings_the_driver_up_once() {
    let mut cell: LazyInit<CountingDriver, fn() -> CountingDriver> =
        LazyInit::new(|| CountingDriver { inits: 0 });
    assert!(cell.get().is_none());
    cell.init();
    assert_eq!(cell.get().unwrap().inits, 1);
    cell.get_or_init();
    assert_eq!(cell.get().unwrap().inits, 1);
}
