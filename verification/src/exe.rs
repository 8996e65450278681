//! PS-EXE sideloading: parsing the 0x800-byte executable header and
//! copying the text segment into main RAM, with the entry point and the
//! initial GP and SP taken from the header.

use vstd::prelude::*;
use crate::bus::{w_from_lanes, RAM_BYTES};
use crate::cpu::{Cpu, CpuView, RegistersView};

verus! {

/// Values a PS-EXE header hands to the loader.
#[derive(PartialEq, Eq, Structural, Clone, Copy, Debug)]
pub struct ExeInfo {
    /// Entry point, header offset 0x10.
    pub initial_pc: u32,
    /// Initial global pointer (R28), header offset 0x14.
    pub initial_gp: u32,
    /// RAM destination of the text segment, header offset 0x18.
    pub load_addr: u32,
    /// Byte size of the text segment, header offset 0x1C.
    pub text_size: u32,
    /// Initial stack pointer (R29), header offset 0x30.
    pub initial_sp: u32,
}

/// Little-endian word at byte offset `off` of the image.
pub open spec fn exe_word(d: Seq<u8>, off: int) -> u32 {
    w_from_lanes(d[off], d[off + 1], d[off + 2], d[off + 3])
}

/// The image is large enough to hold a header and starts with the
/// "PS-X EXE" magic.
pub open spec fn exe_magic_ok(d: Seq<u8>) -> bool {
    &&& d.len() >= 0x800
    &&& d[0] == 0x50u8
    &&& d[1] == 0x53u8
    &&& d[2] == 0x2Du8
    &&& d[3] == 0x58u8
    &&& d[4] == 0x20u8
    &&& d[5] == 0x45u8
    &&& d[6] == 0x58u8
    &&& d[7] == 0x45u8
}

/// The header fields of a valid image.
pub open spec fn exe_info_spec(d: Seq<u8>) -> ExeInfo {
    ExeInfo {
        initial_pc: exe_word(d, 0x10),
        initial_gp: exe_word(d, 0x14),
        load_addr: exe_word(d, 0x18),
        text_size: exe_word(d, 0x1C),
        initial_sp: exe_word(d, 0x30),
    }
}

/// Bytes of the text segment that fit inside the image.
pub open spec fn exe_copy_len(d: Seq<u8>) -> int {
    if exe_word(d, 0x1C) <= d.len() - 0x800 {
        exe_word(d, 0x1C) as int
    } else {
        d.len() - 0x800
    }
}

/// RAM after storing `bytes` at consecutive offsets from `off`, each
/// offset wrapped into the 1 MiB addressable window.
pub open spec fn store_bytes(ram: Seq<u8>, off: int, bytes: Seq<u8>) -> Seq<u8>
    decreases bytes.len(),
{
    if bytes.len() == 0 {
        ram
    } else {
        store_bytes(ram.update(off % 0x10_0000, bytes[0]), off + 1, bytes.drop_first())
    }
}

/// Storing one more byte appends one wrapped update.
pub proof fn lemma_store_bytes_push(ram: Seq<u8>, off: int, bytes: Seq<u8>, x: u8)
    ensures
        store_bytes(ram, off, bytes.push(x)) == store_bytes(ram, off, bytes).update(
            (off + bytes.len()) % 0x10_0000,
            x,
        ),
    decreases bytes.len(),
{
    if bytes.len() == 0 {
        assert(bytes.push(x)[0] == x);
        let r1 = ram.update(off % 0x10_0000, x);
        assert(store_bytes(ram, off, bytes.push(x)) == store_bytes(
            r1,
            off + 1,
            bytes.push(x).drop_first(),
        ));
        assert(bytes.push(x).drop_first() =~= Seq::<u8>::empty());
        assert(store_bytes(r1, off + 1, bytes.push(x).drop_first()) == r1);
        assert(store_bytes(ram, off, bytes) == ram);
    } else {
        assert(bytes.push(x)[0] == bytes[0]);
        let r1 = ram.update(off % 0x10_0000, bytes[0]);
        assert(store_bytes(ram, off, bytes.push(x)) == store_bytes(
            r1,
            off + 1,
            bytes.push(x).drop_first(),
        ));
        assert(store_bytes(ram, off, bytes) == store_bytes(r1, off + 1, bytes.drop_first()));
        lemma_store_bytes_push(r1, off + 1, bytes.drop_first(), x);
        assert(bytes.push(x).drop_first() =~= bytes.drop_first().push(x));
        assert(off + 1 + bytes.drop_first().len() == off + bytes.len());
    }
}

/// Storing keeps the RAM length when the window fits inside it.
pub proof fn lemma_store_bytes_len(ram: Seq<u8>, off: int, bytes: Seq<u8>)
    requires
        ram.len() >= 0x10_0000,
    ensures
        store_bytes(ram, off, bytes).len() == ram.len(),
    decreases bytes.len(),
{
    if bytes.len() != 0 {
        lemma_store_bytes_len(ram.update(off % 0x10_0000, bytes[0]), off + 1, bytes.drop_first());
    }
}

/// Parse a PS-EXE header: the header fields when the image carries the
/// "PS-X EXE" magic, nothing otherwise.
pub fn parse_exe_header(data: &Vec<u8>) -> (r: Option<ExeInfo>)
    ensures
        r is Some == exe_magic_ok(data@),
        match r {
            Some(info) => info == exe_info_spec(data@),
            None => true,
        },
{
    if data.len() < 0x800 {
        return None;
    }
    if !(data[0] == 0x50 && data[1] == 0x53 && data[2] == 0x2D && data[3] == 0x58 && data[4]
        == 0x20 && data[5] == 0x45 && data[6] == 0x58 && data[7] == 0x45) {
        return None;
    }
    Some(
        ExeInfo {
            initial_pc: read_word(data, 0x10),
            initial_gp: read_word(data, 0x14),
            load_addr: read_word(data, 0x18),
            text_size: read_word(data, 0x1C),
            initial_sp: read_word(data, 0x30),
        },
    )
}

/// Little-endian word at byte offset `off` of the image.
fn read_word(data: &Vec<u8>, off: usize) -> (r: u32)
    requires
        off < 0x800,
        off + 4 <= data@.len(),
    ensures
        r == exe_word(data@, off as int),
{
    data[off] as u32 + 256 * (data[off + 1] as u32) + 65536 * (data[off + 2] as u32) + 16777216
        * (data[off + 3] as u32)
}

impl Cpu {
    /// Sideload a PS-EXE: on a valid image, copy the text segment into
    /// main RAM at the header's load address (offsets wrapped into the
    /// 1 MiB window), and take the entry point, GP and SP from the
    /// header.  An invalid image leaves the machine untouched.
    pub fn sideload_exe(&mut self, data: &Vec<u8>) -> (r: bool)
        requires
            old(self)@.wf(),
        ensures
            final(self)@.wf(),
            r == exe_magic_ok(data@),
            !r ==> final(self)@ == old(self)@,
            r ==> final(self)@ == (CpuView {
                regs: RegistersView {
                    pc: exe_info_spec(data@).initial_pc,
                    gprs: old(self)@.regs.gprs.update(
                        28,
                        exe_info_spec(data@).initial_gp,
                    ).update(29, exe_info_spec(data@).initial_sp),
                    ..old(self)@.regs
                },
                bus: crate::bus::BusView {
                    ram: store_bytes(
                        old(self)@.bus.ram,
                        exe_info_spec(data@).load_addr as int,
                        data@.subrange(0x800, 0x800 + exe_copy_len(data@)),
                    ),
                    ..old(self)@.bus
                },
                ..old(self)@
            }),
    {
        let info = match parse_exe_header(data) {
            Some(info) => info,
            None => {
                return false;
            },
        };

        let dl = data.len();
        let avail = dl - 0x800;
        let n = if (info.text_size as usize) < avail {
            info.text_size as usize
        } else {
            avail
        };
        let base = (info.load_addr % 0x10_0000) as usize;

        let ghost text = data@.subrange(0x800, 0x800 + exe_copy_len(data@));
        let mut i: usize = 0;
        while i < n
            invariant
                old(self)@.wf(),
                i <= n,
                n == exe_copy_len(data@),
                dl == data@.len(),
                0x800 + n <= dl,
                base == info.load_addr as int % 0x10_0000,
                text == data@.subrange(0x800, 0x800 + n),
                self@ == (CpuView {
                    bus: crate::bus::BusView {
                        ram: store_bytes(
                            old(self)@.bus.ram,
                            info.load_addr as int,
                            text.subrange(0, i as int),
                        ),
                        ..old(self)@.bus
                    },
                    ..old(self)@
                }),
                self@.bus.ram.len() == RAM_BYTES,
            decreases n - i,
        {
            let b = data[0x800 + i];
            let idx = ((base as u64 + i as u64) % 0x10_0000) as usize;
            proof {
                lemma_store_bytes_len(
                    old(self)@.bus.ram,
                    info.load_addr as int,
                    text.subrange(0, i as int),
                );
                vstd::arithmetic::div_mod::lemma_mod_multiples_vanish(
                    info.load_addr as int / 0x10_0000,
                    info.load_addr as int % 0x10_0000 + i,
                    0x10_0000,
                );
                assert((info.load_addr as int + i) % 0x10_0000 == idx as int);
                lemma_store_bytes_push(
                    old(self)@.bus.ram,
                    info.load_addr as int,
                    text.subrange(0, i as int),
                    b,
                );
                assert(text.subrange(0, i as int).push(b) =~= text.subrange(0, i + 1));
            }
            self.bus.ram[idx] = b;
            i = i + 1;
        }
        proof {
            assert(text.subrange(0, n as int) =~= text);
            lemma_store_bytes_len(old(self)@.bus.ram, info.load_addr as int, text);
        }

        self.registers.write(28, info.initial_gp);
        self.registers.write(29, info.initial_sp);
        self.registers.program_counter = info.initial_pc;
        true
    }
}

} // verus!
