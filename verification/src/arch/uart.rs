//! The PL011 console: its base address and the byte stream written to it
//! (newlines go out as CR LF; hex values as 16 lowercase digits).
use vstd::prelude::*;

verus! {

/// Physical base of the PL011 on the QEMU virt board.
pub const UART_PHYS: usize = 0x0900_0000;

/// A PL011 at `base`.
pub struct Uart {
    base: usize,
}

impl Uart {
    pub closed spec fn spec_base(&self) -> usize {
        self.base
    }

    /// The console at `base`.
    pub fn new(base: usize) -> (u: Uart)
        ensures
            u.spec_base() == base,
    {
        Uart { base }
    }

    /// Its MMIO base.
    pub fn base(&self) -> (b: usize)
        ensures
            b == self.spec_base(),
    {
        self.base
    }
}

/// The base address console output goes to.
pub struct UartState {
    pub base_addr: usize,
}

/// Redirect console output to `new_base` (after the MMIO remap).
pub fn update_base(state: &mut UartState, new_base: usize)
    ensures
        final(state).base_addr == new_base,
{
    state.base_addr = new_base;
}

/// The bytes of `s` as the console sends them: each `\n` preceded by `\r`.
pub open spec fn crlf(s: Seq<u8>) -> Seq<u8>
    decreases s.len(),
{
    if s.len() == 0 {
        Seq::empty()
    } else {
        let rest = crlf(s.drop_last());
        if s.last() == 10u8 { rest + seq![13u8, 10u8] } else { rest.push(s.last()) }
    }
}

/// The console writer: collects the bytes for the device.
pub struct UartWriter {
    pub out: Vec<u8>,
}

impl UartWriter {
    /// Write `s`, turning each `\n` into `\r\n`.
    pub fn write_str(&mut self, s: &[u8])
        ensures
            final(self).out@ == old(self).out@ + crlf(s@),
    {
        let mut i: usize = 0;
        while i < s.len()
            invariant
                i <= s@.len(),
                self.out@ == old(self).out@ + crlf(s@.take(i as int)),
            decreases s@.len() - i,
        {
            let b = s[i];
            proof {
                assert(s@.take(i as int + 1).drop_last() =~= s@.take(i as int));
            }
            if b == 10u8 {
                self.out.push(13u8);
            }
            self.out.push(b);
            proof {
                assert(self.out@ =~= old(self).out@ + crlf(s@.take(i as int + 1)));
            }
            i = i + 1;
        }
        proof {
            assert(s@.take(s@.len() as int) =~= s@);
        }
    }
}

/// Write the bytes of `s` as they are.
pub fn put_str(out: &mut Vec<u8>, s: &[u8])
    ensures
        final(out)@ == old(out)@ + s@,
{
    let mut i: usize = 0;
    while i < s.len()
        invariant
            i <= s@.len(),
            out@ == old(out)@ + s@.take(i as int),
        decreases s@.len() - i,
    {
        out.push(s[i]);
        proof {
            assert(out@ =~= old(out)@ + s@.take(i as int + 1));
        }
        i = i + 1;
    }
    proof {
        assert(s@.take(s@.len() as int) =~= s@);
    }
}

/// The lowercase hex digit of `n` (< 16).
pub open spec fn hex_digit(n: u64) -> u8 {
    if n < 10 { (48 + n) as u8 } else { (87 + n) as u8 }
}

/// The 16 hex digits of `val`, most significant first.
pub open spec fn hex16(val: u64) -> Seq<u8> {
    Seq::new(16, |i: int| hex_digit((val >> ((15 - i) * 4) as u64) & 15))
}

/// Write `val` as 16 lowercase hex digits, most significant first.
pub fn put_hex(out: &mut Vec<u8>, val: u64)
    ensures
        final(out)@ == old(out)@ + hex16(val),
{
    let hex: [u8; 16] = [48, 49, 50, 51, 52, 53, 54, 55, 56, 57, 97, 98, 99, 100, 101, 102];
    let mut k: u64 = 0;
    while k < 16
        invariant
            k <= 16,
            hex@ == seq![48u8, 49, 50, 51, 52, 53, 54, 55, 56, 57, 97, 98, 99, 100, 101, 102],
            out@ == old(out)@ + hex16(val).take(k as int),
        decreases 16 - k,
    {
        let shift: u64 = (15 - k) * 4;
        let nibble = (val >> shift) & 0xF;
        assert(nibble < 16) by (bit_vector)
            requires nibble == (val >> shift) & 0xF;
        out.push(hex[nibble as usize]);
        proof {
            assert(hex16(val)[k as int] == hex_digit((val >> ((15 - k) * 4) as u64) & 15));
            assert(hex[nibble as int] == hex_digit(nibble));
            assert(out@ =~= old(out)@ + hex16(val).take(k as int + 1));
        }
        k = k + 1;
    }
    proof {
        assert(hex16(val).take(16) =~= hex16(val));
    }
}

} // verus!
