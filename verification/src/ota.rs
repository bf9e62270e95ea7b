//! Web-OTA staging (A/B dual bank): where a new image goes and when it is
//! complete.
//!
//! Flash map (RM0090 Table 6, p.77):
//!   Slot A = Bank 1 @ 0x0800_0000, 1 MB (running app today)
//!   Slot B = Bank 2 @ 0x0810_0000 up to the config sector at 0x081E_0000
//!            (896 KB), the staging area for the new image.
//! The web handler streams a new `.bin` into the INACTIVE slot, verifies it
//! (length + CRC-32), marks it "boot next", then reboots. The mark is the
//! boot-select word, kept in the config sector right after the config
//! record; the bootloader runs the slot it names, and slot A when the word is
//! erased or holds anything else. The writer never
//! hands out an address outside the inactive slot, so it can neither touch
//! the running image nor the config sector.
use vstd::prelude::*;

verus! {

/// Base address of slot A (Bank 1). RM0090 Table 6, p.77.
pub const SLOT_A_ADDR: u32 = 0x0800_0000;
/// Base address of slot B (Bank 2). RM0090 Table 6, p.77.
pub const SLOT_B_ADDR: u32 = 0x0810_0000;
/// Size of slot A: all of Bank 1.
pub const SLOT_A_LEN: u32 = 0x0010_0000;
/// Size of slot B: Bank 2 up to the config sector.
pub const SLOT_B_LEN: u32 = 0x000E_0000;
/// Size of a bank.
pub const BANK_LEN: u32 = 0x0010_0000;
/// Base of the config sector (sector 23), right after slot B.
pub const CONFIG_SECTOR_ADDR: u32 = 0x081E_0000;

/// The slot that a vector table at `vtor` lies in: slot B when it is inside
/// Bank 2, slot A otherwise (Bank 1, or its alias at address 0).
pub open spec fn spec_running_slot(vtor: u32) -> u32 {
    if SLOT_B_ADDR <= vtor < SLOT_B_ADDR + BANK_LEN {
        SLOT_B_ADDR
    } else {
        SLOT_A_ADDR
    }
}

/// The slot an update is staged in while `running` runs: the other one.
pub open spec fn inactive_slot(running: u32) -> u32 {
    if running == SLOT_B_ADDR {
        SLOT_A_ADDR
    } else {
        SLOT_B_ADDR
    }
}

/// The slot `running` names (slot A for anything but slot B's base).
pub open spec fn spec_running_slot_base(running: u32) -> u32 {
    if running == SLOT_B_ADDR {
        SLOT_B_ADDR
    } else {
        SLOT_A_ADDR
    }
}

/// Capacity of the slot at `base`.
pub open spec fn slot_len(base: u32) -> u32 {
    if base == SLOT_B_ADDR {
        SLOT_B_LEN
    } else {
        SLOT_A_LEN
    }
}

/// One `write_chunk` of `len` bytes on a writer whose view is `w`: the
/// result and the writer's view afterwards.
pub open spec fn spec_chunk_step(w: (u32, u32), len: nat) -> (Result<u32, ()>, (u32, u32)) {
    if w.1 + len <= slot_len(w.0) {
        (Ok((w.0 + w.1) as u32), (w.0, (w.1 + len) as u32))
    } else {
        (Err(()), w)
    }
}

/// The bytes of a sequence of chunks, one after the other.
pub open spec fn concat_chunks(cs: Seq<Seq<u8>>) -> Seq<u8>
    decreases cs.len(),
{
    if cs.len() == 0 {
        Seq::empty()
    } else {
        concat_chunks(cs.drop_last()) + cs.last()
    }
}

/// Writing the chunks `cs` in order, starting from a writer whose view is
/// `w`: the writer's view afterwards and the result of every `write_chunk`.
pub open spec fn spec_write_stream(w: (u32, u32), cs: Seq<Seq<u8>>) -> ((u32, u32), Seq<
    Result<u32, ()>,
>)
    decreases cs.len(),
{
    if cs.len() == 0 {
        (w, Seq::empty())
    } else {
        let prev = spec_write_stream(w, cs.drop_last());
        let step = spec_chunk_step(prev.0, cs.last().len());
        (step.1, prev.1.push(step.0))
    }
}

/// What `finish` returns for a writer whose view is `w`.
pub open spec fn spec_finish(w: (u32, u32), expected_len: u32, expected_crc: u32, staged: Seq<u8>) -> Result<u32, ()> {
    if w.1 == expected_len && staged.len() == expected_len && spec_crc32(staged) == expected_crc {
        Ok(w.0)
    } else {
        Err(())
    }
}

/// Whether the address range `[addr, addr + len)` lies inside the slot at `base`.
pub open spec fn in_slot(base: u32, addr: int, len: int) -> bool {
    base <= addr && addr + len <= base + slot_len(base)
}

/// Which slot the running firmware was started from, given the vector table
/// base read from SCB.VTOR. The OTA target is the other one.
pub fn running_slot_addr(vtor: u32) -> (res: u32)
    ensures
        res == spec_running_slot(vtor),
{
    if SLOT_B_ADDR <= vtor && vtor < SLOT_B_ADDR + BANK_LEN {
        SLOT_B_ADDR
    } else {
        SLOT_A_ADDR
    }
}

/// A streaming writer that the web /firmware handler feeds chunks into: it
/// tracks the target slot and how many bytes have been staged, and tells the
/// caller where each chunk goes in Flash.
pub struct OtaWriter {
    target_addr: u32,
    offset: u32,
}

impl View for OtaWriter {
    /// (target slot base, bytes staged so far)
    type V = (u32, u32);

    closed spec fn view(&self) -> (u32, u32) {
        (self.target_addr, self.offset)
    }
}

impl OtaWriter {
    #[verifier::type_invariant]
    spec fn inv(self) -> bool {
        &&& (self.target_addr == SLOT_A_ADDR || self.target_addr == SLOT_B_ADDR)
        &&& self.offset <= slot_len(self.target_addr)
    }

    /// Open a writer for the INACTIVE slot (the one we are not running from),
    /// given the slot the firmware runs from.
    pub fn new_for_inactive_slot(running_slot: u32) -> (res: Self)
        ensures
            res@ == (inactive_slot(running_slot), 0u32),
            inactive_slot(running_slot) != spec_running_slot_base(running_slot),
    {
        let target_addr = if running_slot == SLOT_B_ADDR {
            SLOT_A_ADDR
        } else {
            SLOT_B_ADDR
        };
        OtaWriter { target_addr, offset: 0 }
    }

    /// Base address of the slot being written.
    pub fn target_addr(&self) -> (res: u32)
        ensures
            res == self@.0,
    {
        self.target_addr
    }

    /// Bytes staged so far.
    pub fn offset(&self) -> (res: u32)
        ensures
            res == self@.1,
    {
        self.offset
    }

    /// Reserve the place of the next chunk: `Ok(addr)` is where `data` must be
    /// programmed (right after what was staged before), and the offset
    /// advances past it. `Err(())`, with nothing changed, when the chunk does
    /// not fit in the slot.
    pub fn write_chunk(&mut self, data: &[u8]) -> (res: Result<u32, ()>)
        ensures
            final(self)@.0 == old(self)@.0,
            final(self)@.0 == SLOT_A_ADDR || final(self)@.0 == SLOT_B_ADDR,
            final(self)@.1 <= slot_len(final(self)@.0),
            res matches Ok(addr) ==> in_slot(old(self)@.0, addr as int, data@.len() as int),
            (res, final(self)@) == spec_chunk_step(old(self)@, data@.len()),
            old(self)@.1 + data@.len() <= slot_len(old(self)@.0) ==> {
                &&& res == Ok::<u32, ()>((old(self)@.0 + old(self)@.1) as u32)
                &&& final(self)@.1 == old(self)@.1 + data@.len()
            },
            old(self)@.1 + data@.len() > slot_len(old(self)@.0) ==> {
                &&& res == Err::<u32, ()>(())
                &&& final(self)@.1 == old(self)@.1
            },
    {
        proof {
            use_type_invariant(&*self);
        }
        let cap = if self.target_addr == SLOT_B_ADDR {
            SLOT_B_LEN
        } else {
            SLOT_A_LEN
        };
        let room = cap - self.offset;
        if data.len() > room as usize {
            return Err(());
        }
        let addr = self.target_addr + self.offset;
        self.offset = self.offset + data.len() as u32;
        Ok(addr)
    }

    /// Finish: the staged image is complete when exactly `expected_len` bytes
    /// were written, `staged` (the slot's first `expected_len` bytes, read back)
    /// has that length and its CRC-32 is `expected_crc`. On success returns the
    /// slot to mark "boot next"; the caller then reboots via safe_reboot.
    pub fn finish(self, expected_len: u32, expected_crc: u32, staged: &[u8]) -> (res: Result<
        u32,
        (),
    >)
        ensures
            res == spec_finish(self@, expected_len, expected_crc, staged@),
    {
        if self.offset != expected_len || staged.len() != expected_len as usize {
            return Err(());
        }
        if crc32(staged) != expected_crc {
            return Err(());
        }
        Ok(self.target_addr)
    }
}

/// Offset of the boot-select word in the config sector: after the 77-byte
/// config record, programmed padded to 80 bytes (whole words).
pub const BOOT_SELECT_OFFSET: u32 = 80;
/// Upper bits of a valid boot-select word.
pub const BOOT_SELECT_TAG: u32 = 0xB007_5E00;
/// Low bits naming slot A.
pub const BOOT_SELECT_A: u32 = 0x0A;
/// Low bits naming slot B.
pub const BOOT_SELECT_B: u32 = 0x0B;

/// The boot-select word that names the slot at `base`.
pub open spec fn spec_boot_select_word(base: u32) -> u32 {
    if base == SLOT_B_ADDR {
        (BOOT_SELECT_TAG + BOOT_SELECT_B) as u32
    } else {
        (BOOT_SELECT_TAG + BOOT_SELECT_A) as u32
    }
}

/// The slot the bootloader runs for a boot-select word.
pub open spec fn spec_boot_slot(word: u32) -> u32 {
    if word == BOOT_SELECT_TAG + BOOT_SELECT_B {
        SLOT_B_ADDR
    } else {
        SLOT_A_ADDR
    }
}

/// The word to program as the boot-select word so that the next boot runs
/// the slot at `base` (the slot `finish` returned).
pub fn boot_select_word(base: u32) -> (res: u32)
    ensures
        res == spec_boot_select_word(base),
{
    if base == SLOT_B_ADDR {
        BOOT_SELECT_TAG + BOOT_SELECT_B
    } else {
        BOOT_SELECT_TAG + BOOT_SELECT_A
    }
}

/// The slot to run for the boot-select word read at boot: the slot it names,
/// or slot A for an erased or unknown word.
pub fn boot_slot(word: u32) -> (res: u32)
    ensures
        res == spec_boot_slot(word),
{
    if word == BOOT_SELECT_TAG + BOOT_SELECT_B {
        SLOT_B_ADDR
    } else {
        SLOT_A_ADDR
    }
}

/// The boot-select word written for a slot makes the next boot run that
/// slot; an erased word (all ones) runs slot A.
pub proof fn law_boot_select_round_trip(base: u32)
    requires
        base == SLOT_A_ADDR || base == SLOT_B_ADDR,
    ensures
        spec_boot_slot(spec_boot_select_word(base)) == base,
        spec_boot_slot(0xFFFF_FFFF) == SLOT_A_ADDR,
{
}

/// Reflected polynomial of CRC-32 (IEEE 802.3 / ISO-HDLC, as `crc32`, zlib and
/// PNG compute it).
pub const CRC32_POLY: u32 = 0xEDB8_8320;

/// One bit step of the reflected CRC register.
pub open spec fn crc_bit(c: u32) -> u32 {
    if c & 1 == 1 {
        (c >> 1) ^ CRC32_POLY
    } else {
        c >> 1
    }
}

/// `k` bit steps.
pub open spec fn crc_bits(c: u32, k: nat) -> u32
    decreases k,
{
    if k == 0 {
        c
    } else {
        crc_bits(crc_bit(c), (k - 1) as nat)
    }
}

/// The CRC register after feeding `data` into a register holding `c`.
pub open spec fn crc_feed(c: u32, data: Seq<u8>) -> u32
    decreases data.len(),
{
    if data.len() == 0 {
        c
    } else {
        crc_feed(crc_bits(c ^ (data[0] as u32), 8), data.drop_first())
    }
}

/// CRC-32 of `data`: register starts all ones, result is inverted.
pub open spec fn spec_crc32(data: Seq<u8>) -> u32 {
    !crc_feed(0xFFFF_FFFF, data)
}

proof fn lemma_crc_feed_step(c: u32, data: Seq<u8>, i: int)
    requires
        0 <= i < data.len(),
    ensures
        crc_feed(c, data.take(i + 1)) == crc_bits(crc_feed(c, data.take(i)) ^ (data[i] as u32), 8),
    decreases i,
{
    if i > 0 {
        let c1 = crc_bits(c ^ (data[0] as u32), 8);
        assert(data.take(i + 1).drop_first() =~= data.drop_first().take(i));
        assert(data.take(i).drop_first() =~= data.drop_first().take(i - 1));
        lemma_crc_feed_step(c1, data.drop_first(), i - 1);
        assert(data.take(i + 1)[0] == data[0]);
        assert(data.take(i)[0] == data[0]);
        assert(data.drop_first()[i - 1] == data[i]);
        assert(crc_feed(c, data.take(i + 1)) == crc_feed(c1, data.drop_first().take(i)));
        assert(crc_feed(c, data.take(i)) == crc_feed(c1, data.drop_first().take(i - 1)));
    } else {
        let c1 = crc_bits(c ^ (data[0] as u32), 8);
        assert(data.take(1).drop_first() =~= Seq::<u8>::empty());
        assert(crc_feed(c, data.take(1)) == crc_feed(c1, Seq::<u8>::empty()));
        assert(data.take(0) =~= Seq::<u8>::empty());
    }
}

/// CRC-32 (IEEE) of a byte slice, bit by bit.
pub fn crc32(data: &[u8]) -> (res: u32)
    ensures
        res == spec_crc32(data@),
{
    let mut crc: u32 = 0xFFFF_FFFF;
    let mut i: usize = 0;
    assert(data@.take(0) =~= Seq::<u8>::empty());
    while i < data.len()
        invariant
            i <= data@.len(),
            crc == crc_feed(0xFFFF_FFFF, data@.take(i as int)),
        decreases data@.len() - i,
    {
        proof {
            lemma_crc_feed_step(0xFFFF_FFFF, data@, i as int);
        }
        let mut c = crc ^ (data[i] as u32);
        let ghost c0 = c;
        let mut k: u32 = 0;
        while k < 8
            invariant
                k <= 8,
                crc_bits(c0, 8) == crc_bits(c, (8 - k) as nat),
            decreases 8 - k,
        {
            c = if c & 1 == 1 {
                (c >> 1) ^ CRC32_POLY
            } else {
                c >> 1
            };
            k = k + 1;
        }
        crc = c;
        i = i + 1;
    }
    assert(data@.take(data@.len() as int) =~= data@);
    !crc
}

/// A vector table in Bank 2 (0x0810_0000 up to 0x0820_0000) means slot B is
/// running, one in Bank 1 means slot A; the update always goes to the other
/// slot.
pub proof fn law_running_and_inactive_slot(vtor: u32)
    ensures
        0x0810_0000 <= vtor < 0x0820_0000 ==> spec_running_slot(vtor) == 0x0810_0000,
        0x0800_0000 <= vtor < 0x0810_0000 ==> spec_running_slot(vtor) == 0x0800_0000,
        inactive_slot(spec_running_slot(vtor)) != spec_running_slot(vtor),
        inactive_slot(0x0800_0000) == 0x0810_0000,
        inactive_slot(0x0810_0000) == 0x0800_0000,
        slot_len(0x0800_0000) == 0x10_0000,
        0x0810_0000 + slot_len(0x0810_0000) == 0x081E_0000,
{
}

/// CRC-32 runs over every byte: the empty input has CRC 0, and appending a
/// byte feeds it, after the whole input before it, through eight steps of the
/// reflected register (inverted on the way in and out).
pub proof fn law_crc32_each_byte(d: Seq<u8>, b: u8)
    ensures
        spec_crc32(Seq::<u8>::empty()) == 0,
        spec_crc32(d.push(b)) == !crc_bits(!spec_crc32(d) ^ (b as u32), 8),
{
    let e = d.push(b);
    lemma_crc_feed_step(0xFFFF_FFFF, e, d.len() as int);
    assert(e.take(d.len() + 1 as int) =~= e);
    assert(e.take(d.len() as int) =~= d);
    let c = crc_feed(0xFFFF_FFFF, d);
    assert(!(!c) == c) by (bit_vector);
    assert(!0xFFFF_FFFFu32 == 0) by (bit_vector);
}

/// One register step: shift right, folding in the polynomial when the bit
/// shifted out is one.
pub proof fn law_crc_bit(c: u32)
    ensures
        crc_bit(c) == (if c % 2 == 1 {
            (c / 2) ^ 0xEDB8_8320u32
        } else {
            c / 2
        }),
{
    assert((c & 1 == 1) == (c % 2 == 1) && c >> 1 == c / 2) by (bit_vector);
}

/// The slot staged into is never the one running, and nothing the writer
/// hands out can reach the running slot or the config sector: every chunk
/// address range of the inactive slot is disjoint from both.
pub proof fn law_staging_never_touches_running_image(running: u32, addr: int, len: int)
    requires
        running == SLOT_A_ADDR || running == SLOT_B_ADDR,
        len > 0,
        in_slot(inactive_slot(running), addr, len),
    ensures
        inactive_slot(running) != running,
        addr + len <= running || running + slot_len(running) <= addr,
        addr + len <= CONFIG_SECTOR_ADDR,
{
}

proof fn lemma_concat_take(cs: Seq<Seq<u8>>, i: int)
    requires
        0 <= i < cs.len(),
    ensures
        concat_chunks(cs.take(i + 1)) == concat_chunks(cs.take(i)) + cs[i],
{
    assert(cs.take(i + 1).drop_last() =~= cs.take(i));
}

/// Chunks written in order from a fresh writer land back to back: chunk `i`
/// goes to the slot base plus the length of the chunks before it, the offset
/// ends at their total length, every byte of the concatenation sits at the
/// slot base plus its index, and `finish` on the read-back image accepts
/// exactly when the expected length and CRC-32 are those of the chunks'
/// concatenation, and then the boot-select word written for the slot it
/// returns makes the next boot run the staged slot. Holds while the chunks
/// fit the slot.
pub proof fn law_chunk_stream(t: u32, cs: Seq<Seq<u8>>, expected_len: u32, expected_crc: u32)
    requires
        t == SLOT_A_ADDR || t == SLOT_B_ADDR,
        concat_chunks(cs).len() <= slot_len(t),
    ensures
        spec_write_stream((t, 0u32), cs).0 == (t, concat_chunks(cs).len() as u32),
        spec_write_stream((t, 0u32), cs).1.len() == cs.len(),
        forall|i: int|
            0 <= i < cs.len() ==> #[trigger] spec_write_stream((t, 0u32), cs).1[i] == Ok::<u32, ()>(
                (t + concat_chunks(cs.take(i)).len()) as u32,
            ),
        forall|i: int, j: int|
            0 <= i < cs.len() && 0 <= j < cs[i].len() ==> concat_chunks(cs)[concat_chunks(
                cs.take(i),
            ).len() + j] == #[trigger] cs[i][j],
        spec_finish(spec_write_stream((t, 0u32), cs).0, expected_len, expected_crc, concat_chunks(cs))
            == (if expected_len == concat_chunks(cs).len() && expected_crc == spec_crc32(
            concat_chunks(cs),
        ) {
            Ok::<u32, ()>(t)
        } else {
            Err::<u32, ()>(())
        }),
        spec_finish(spec_write_stream((t, 0u32), cs).0, expected_len, expected_crc, concat_chunks(cs))
            matches Ok(slot) ==> spec_boot_slot(spec_boot_select_word(slot)) == t,
    decreases cs.len(),
{
    if cs.len() > 0 {
        let n = cs.len() - 1;
        let prev = cs.drop_last();
        assert(concat_chunks(cs) == concat_chunks(prev) + cs.last());
        law_chunk_stream(t, prev, expected_len, expected_crc);
        assert(cs.take(n) =~= prev);
        assert forall|i: int| 0 <= i < n implies #[trigger] cs.take(i) == prev.take(i) by {
            assert(cs.take(i) =~= prev.take(i));
        }
        assert forall|i: int| 0 <= i < cs.len() implies #[trigger] spec_write_stream(
            (t, 0u32),
            cs,
        ).1[i] == Ok::<u32, ()>((t + concat_chunks(cs.take(i)).len()) as u32) by {
            if i < n {
                assert(cs.take(i) == prev.take(i));
                assert(prev[i] == cs[i]);
            }
        }
        assert forall|i: int, j: int|
            0 <= i < cs.len() && 0 <= j < cs[i].len() implies concat_chunks(cs)[concat_chunks(
            cs.take(i),
        ).len() + j] == #[trigger] cs[i][j] by {
            if i < n {
                assert(cs.take(i) == prev.take(i));
                assert(prev[i] == cs[i]);
                lemma_concat_take(prev, i);
                lemma_concat_prefix_len(prev, i + 1);
            }
        }
    } else {
        assert(concat_chunks(cs) =~= Seq::<u8>::empty());
    }
}

/// The chunks before `k` take no more room than all of them.
proof fn lemma_concat_prefix_len(cs: Seq<Seq<u8>>, k: int)
    requires
        0 <= k <= cs.len(),
    ensures
        concat_chunks(cs.take(k)).len() <= concat_chunks(cs).len(),
    decreases cs.len() - k,
{
    if k < cs.len() {
        lemma_concat_take(cs, k);
        lemma_concat_prefix_len(cs, k + 1);
    } else {
        assert(cs.take(k) =~= cs);
    }
}

} // verus!
