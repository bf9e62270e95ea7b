//! MAX31865 RTD-to-digital converter protocol (PT100, 2-wire).
//!
//! Bus: SPI mode 1, MSB first. A register write sends `0x80 | reg` and then the
//! value; a read sends the register address as is and clocks the data out.
//! The RTD result is the MSB register (0x01) then the LSB register (0x02);
//! bit 0 of the 16-bit word is the fault flag and bits 15..1 are the 15-bit
//! ratio RTD resistance / Rref, scaled by 32768.
use vstd::prelude::*;

verus! {

/// Configuration register address.
pub const REG_CONFIG: u8 = 0x00;
/// RTD MSB register; the LSB follows at 0x02.
pub const REG_RTD_MSB: u8 = 0x01;
/// Fault status register.
pub const REG_FAULT: u8 = 0x07;

/// Config bit 7: VBIAS on.
pub const CONFIG_VBIAS: u8 = 0x80;
/// Config bit 6: conversion mode auto.
pub const CONFIG_AUTO: u8 = 0x40;
/// Config bit 5: one-shot (unused: the driver runs in auto mode).
pub const CONFIG_1SHOT: u8 = 0x20;
/// Config bit 4: 3-wire (unused: the PT100 is 2-wire, so the bit stays 0).
pub const CONFIG_3WIRE: u8 = 0x10;
/// Config bit 1: fault status clear.
pub const CONFIG_FAULT_CLR: u8 = 0x02;

/// The config byte written at init and after a fault.
pub open spec fn spec_run_config() -> u8 {
    0xC2
}

/// The bytes of a register write.
pub open spec fn spec_write_frame(reg: u8, val: u8) -> Seq<u8> {
    seq![0x80u8 | reg, val]
}

/// The config byte written at init and after a fault: 2-wire, VBIAS on,
/// automatic conversion, fault status cleared.
pub fn run_config() -> (res: u8)
    ensures
        res == spec_run_config(),
        res == 0xC2,
        res & CONFIG_3WIRE == 0,
        res & CONFIG_1SHOT == 0,
{
    let res = CONFIG_VBIAS | CONFIG_AUTO | CONFIG_FAULT_CLR;
    assert(res == 0xC2 && res & CONFIG_3WIRE == 0 && res & CONFIG_1SHOT == 0) by (bit_vector)
        requires
            res == 0x80u8 | 0x40u8 | 0x02u8,
    ;
    res
}

/// The two bytes that write `val` to register `reg`: the address with its
/// write bit (bit 7) set, then the value.
pub fn write_frame(reg: u8, val: u8) -> (res: [u8; 2])
    ensures
        res@ == spec_write_frame(reg, val),
        res@ == seq![0x80u8 | reg, val],
{
    let res = [0x80 | reg, val];
    assert(res@ =~= seq![0x80u8 | reg, val]);
    res
}

/// What one RTD result word says.
#[derive(Clone, Copy, Debug, PartialEq, Eq, Structural)]
pub enum RtdReading {
    /// The fault flag is set: read the fault register and re-write the config
    /// with the fault-clear bit.
    Fault,
    /// The 15-bit resistance ratio (RTD / Rref scaled by 32768).
    Ratio(u16),
}

/// The reading held by the RTD MSB and LSB register bytes.
pub open spec fn spec_decode_rtd(msb: u8, lsb: u8) -> RtdReading {
    let word = msb * 256 + lsb;
    if word % 2 == 1 {
        RtdReading::Fault
    } else {
        RtdReading::Ratio((word / 2) as u16)
    }
}

/// Decode the RTD MSB/LSB bytes: the fault bit, or the ratio with the fault
/// bit shifted out.
pub fn decode_rtd(rtd: [u8; 2]) -> (res: RtdReading)
    ensures
        res == spec_decode_rtd(rtd[0], rtd[1]),
        res matches RtdReading::Ratio(r) ==> r < 32768,
{
    let msb = rtd[0];
    let lsb = rtd[1];
    let combined = ((msb as u16) << 8) | lsb as u16;
    assert(combined == msb * 256 + lsb && (combined & 1 != 0) == (combined % 2 == 1) && combined
        >> 1 == combined / 2 && combined >> 1 < 32768) by (bit_vector)
        requires
            combined == ((msb as u16) << 8) | lsb as u16,
    ;
    if combined & 0x0001 != 0 {
        RtdReading::Fault
    } else {
        RtdReading::Ratio(combined >> 1)
    }
}

/// The config byte sets VBIAS (bit 7), automatic conversion (bit 6) and fault
/// clear (bit 1), and leaves one-shot (bit 5), 3-wire (bit 4) and every other
/// bit clear.
pub proof fn law_run_config_bits()
    ensures
        spec_run_config() / 128 % 2 == 1,
        spec_run_config() / 64 % 2 == 1,
        spec_run_config() / 32 % 2 == 0,
        spec_run_config() / 16 % 2 == 0,
        spec_run_config() / 2 % 2 == 1,
        spec_run_config() % 2 == 0,
        spec_run_config() / 4 % 4 == 0,
{
}

/// A register write sends two bytes: the register address with the write bit
/// (bit 7) set and its other bits kept, then the value.
pub proof fn law_write_frame(reg: u8, val: u8)
    ensures
        spec_write_frame(reg, val).len() == 2,
        spec_write_frame(reg, val)[0] >= 0x80,
        spec_write_frame(reg, val)[0] % 128 == reg % 128,
        spec_write_frame(reg, val)[1] == val,
{
    let a = 0x80u8 | reg;
    assert(a >= 0x80 && a % 128 == reg % 128) by (bit_vector)
        requires
            a == 0x80u8 | reg,
    ;
}

/// Every result word is either a fault or a ratio that gives the word back
/// with the fault bit clear: decoding loses nothing.
pub proof fn law_rtd_word_split(msb: u8, lsb: u8)
    ensures
        match spec_decode_rtd(msb, lsb) {
            RtdReading::Fault => (msb * 256 + lsb) % 2 == 1,
            RtdReading::Ratio(r) => r * 2 == msb * 256 + lsb && r < 32768,
        },
{
}

} // verus!
