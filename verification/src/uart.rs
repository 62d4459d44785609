//! A UART with receive and transmit ring buffers over a raw port driver:
//! received bytes are pushed from the interrupt path and popped by readers;
//! written bytes gather in the transmit ring until a flush hands them to the
//! port.

use vstd::prelude::*;

use crate::driver::UartDriver;
use crate::ringbuf::RingBuf;

verus! {

/// Buffered UART: `RX_SIZE` and `TX_SIZE` are the ring sizes (each holding
/// one byte less).
pub struct UartBuf<D: UartDriver, const RX_SIZE: usize, const TX_SIZE: usize> {
    /// The raw port underneath.
    pub driver: D,
    /// Bytes received and not yet read, oldest first.
    pub rx: RingBuf<u8, RX_SIZE>,
    /// Bytes written and not yet transmitted, oldest first.
    pub tx: RingBuf<u8, TX_SIZE>,
}

impl<D: UartDriver, const RX_SIZE: usize, const TX_SIZE: usize> UartBuf<D, RX_SIZE, TX_SIZE> {
    /// Both rings well-formed.
    pub open spec fn wf(&self) -> bool {
        self.rx.wf() && self.tx.wf()
    }

    /// Wrap a port driver, initialize it, and start with empty rings.
    pub fn new(uart_driver: D) -> (r: Self)
        requires
            RX_SIZE > 1,
            TX_SIZE > 1,
        ensures
            r.wf(),
            r.rx@ == Seq::<u8>::empty(),
            r.tx@ == Seq::<u8>::empty(),
    {
        let mut driver = uart_driver;
        driver.drv_init();
        UartBuf { driver, rx: RingBuf::new(), tx: RingBuf::new() }
    }

    /// Pop one received byte, oldest first.
    pub fn read_byte(&mut self) -> (r: Option<u8>)
        requires
            old(self).wf(),
        ensures
            final(self).wf(),
            final(self).tx == old(self).tx,
            match r {
                Some(b) => old(self).rx@.len() > 0 && b == old(self).rx@[0] && final(self).rx@
                    == old(self).rx@.skip(1),
                None => old(self).rx@.len() == 0 && final(self).rx@ == old(self).rx@,
            },
    {
        self.rx.pop()
    }

    /// Move received bytes into `buffer` from its start: as many as both the
    /// ring and the buffer allow, the rest of the buffer kept.
    pub fn read(&mut self, buffer: &mut Vec<u8>) -> (r: usize)
        requires
            old(self).wf(),
        ensures
            final(self).wf(),
            final(self).tx == old(self).tx,
            r == if old(buffer)@.len() < old(self).rx@.len() {
                old(buffer)@.len()
            } else {
                old(self).rx@.len()
            },
            final(buffer)@ == old(self).rx@.take(r as int) + old(buffer)@.skip(r as int),
            final(self).rx@ == old(self).rx@.skip(r as int),
    {
        let mut count: usize = 0;
        let n = if buffer.len() < self.rx.len() {
            buffer.len()
        } else {
            self.rx.len()
        };
        while count < n
            invariant
                self.wf(),
                self.tx == old(self).tx,
                count <= n,
                n <= old(buffer)@.len(),
                n <= old(self).rx@.len(),
                buffer@.len() == old(buffer)@.len(),
                self.rx@ == old(self).rx@.skip(count as int),
                forall|j: int| 0 <= j < count ==> buffer@[j] == old(self).rx@[j],
                forall|j: int| count <= j < buffer@.len() ==> buffer@[j] == old(buffer)@[j],
            decreases n - count,
        {
            let b = match self.rx.pop() {
                Some(b) => b,
                None => 0,  // unreachable: count < n <= ring length
            };
            proof {
                assert(old(self).rx@.skip(count as int)[0] == old(self).rx@[count as int]);
                assert(old(self).rx@.skip(count as int).skip(1) =~= old(self).rx@.skip(count + 1));
            }
            buffer[count] = b;
            count += 1;
        }
        proof {
            assert(buffer@ =~= old(self).rx@.take(n as int) + old(buffer)@.skip(n as int));
        }
        n
    }

    /// Drop everything received and not yet read.
    pub fn clear_rx(&mut self)
        requires
            old(self).wf(),
        ensures
            final(self).wf(),
            final(self).rx@ == Seq::<u8>::empty(),
            final(self).tx == old(self).tx,
    {
        self.rx.clear();
    }

    /// Queue one byte for transmission; a full transmit ring is flushed to
    /// the port first, so the byte always fits.
    pub fn write_byte(&mut self, byte: u8) -> (r: bool)
        requires
            old(self).wf(),
        ensures
            final(self).wf(),
            final(self).rx == old(self).rx,
            r == true,
            old(self).tx@.len() < TX_SIZE - 1 ==> final(self).tx@ == old(self).tx@.push(byte),
            old(self).tx@.len() == TX_SIZE - 1 ==> final(self).tx@ == seq![byte],
    {
        proof {
            self.tx.lemma_len_bounded();
        }
        if self.tx.is_full() {
            self.flush();
        }
        proof {
            self.tx.lemma_len_bounded();
        }
        let ok = self.tx.push(byte);
        proof {
            if old(self).tx@.len() == TX_SIZE - 1 {
                assert(self.tx@ =~= seq![byte]);
            }
        }
        ok
    }

    /// Queue every byte of `data`; the transmit ring is flushed to the port
    /// whenever it fills, so nothing is lost: the ring ends holding a suffix
    /// of the old contents followed by `data`, everything before the suffix
    /// having been transmitted.
    pub fn write(&mut self, data: &Vec<u8>)
        requires
            old(self).wf(),
        ensures
            final(self).wf(),
            final(self).rx == old(self).rx,
            final(self).tx@.len() <= TX_SIZE - 1,
            exists|k: int|
                0 <= k <= old(self).tx@.len() + data@.len() && final(self).tx@ == #[trigger] (old(
                    self,
                ).tx@ + data@).skip(k),
    {
        let ghost mut k: int = 0;
        let mut i: usize = 0;
        proof {
            assert(self.tx@ =~= (old(self).tx@ + data@.take(0)).skip(0));
        }
        while i < data.len()
            invariant
                self.wf(),
                self.rx == old(self).rx,
                i <= data@.len(),
                0 <= k <= old(self).tx@.len() + i,
                self.tx@ == (old(self).tx@ + data@.take(i as int)).skip(k),
            decreases data@.len() - i,
        {
            let ghost whole = old(self).tx@ + data@.take(i as int);
            let ghost pre = self.tx@;
            proof {
                self.tx.lemma_len_bounded();
            }
            let _ = self.write_byte(data[i]);
            proof {
                if pre.len() < TX_SIZE - 1 {
                    assert(self.tx@ =~= pre.push(data@[i as int]));
                    assert(self.tx@ =~= (old(self).tx@ + data@.take(i + 1)).skip(k));
                } else {
                    assert(self.tx@ =~= seq![data@[i as int]]);
                    k = old(self).tx@.len() + i;
                    assert(self.tx@ =~= (old(self).tx@ + data@.take(i + 1)).skip(k));
                }
            }
            i += 1;
        }
        proof {
            self.tx.lemma_len_bounded();
            assert(data@.take(data@.len() as int) =~= data@);
            assert(final(self).tx@ == (old(self).tx@ + data@).skip(k));
        }
    }

    /// Hand everything queued to the port in one transfer; the transmit ring
    /// ends empty.
    pub fn flush(&mut self)
        requires
            old(self).wf(),
        ensures
            final(self).wf(),
            final(self).rx == old(self).rx,
            final(self).tx@ == Seq::<u8>::empty(),
    {
        if self.tx.is_empty() {
            return ;
        }
        let mut buffer: Vec<u8> = Vec::new();
        proof {
            self.tx.lemma_len_bounded();
        }
        let mut next = self.tx.pop();
        while next.is_some()
            invariant
                self.wf(),
                self.rx == old(self).rx,
                next is Some ==> self.tx@.len() < TX_SIZE - 1,
                next is None ==> self.tx@.len() == 0,
            decreases self.tx@.len() + (if next is Some {
                1int
            } else {
                0int
            }),
        {
            let b = match next {
                Some(b) => b,
                None => 0,  // unreachable: the loop runs only on Some
            };
            buffer.push(b);
            proof {
                self.tx.lemma_len_bounded();
            }
            next = self.tx.pop();
        }
        self.driver.drv_write(&buffer);
    }

    /// Record one byte arriving on the receive path (called from the
    /// interrupt handler); a full ring loses the byte.
    pub fn rx_complete(&mut self, byte: u8)
        requires
            old(self).wf(),
        ensures
            final(self).wf(),
            final(self).tx == old(self).tx,
            old(self).rx@.len() < RX_SIZE - 1 ==> final(self).rx@ == old(self).rx@.push(byte),
            old(self).rx@.len() == RX_SIZE - 1 ==> final(self).rx@ == old(self).rx@,
    {
        let _ = self.rx.push(byte);
    }
}

} // verus!
