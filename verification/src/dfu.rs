//! Request word for entering the STM32 ROM USB-DFU bootloader.
//!
//! The firmware enters DFU in two steps: `reboot_to_dfu` stores `DFU_MAGIC` in
//! a CCM word that survives a soft reset and reboots; at the very start of the
//! next boot the word is checked, cleared to `DFU_CLEARED` (so a failed DFU
//! attempt cannot trap the board in a reboot loop), and on a hit the firmware
//! jumps to the ROM loader at `SYSTEM_MEMORY_BASE` while the chip is still near
//! its reset state.
use vstd::prelude::*;

verus! {

/// Base of the system-memory ROM bootloader on STM32F42x/43x (RM0090 §3.4).
pub const SYSTEM_MEMORY_BASE: u32 = 0x1FFF_0000;
/// "The previous boot asked us to enter DFU" ("boot dfu", 0xdf11 = DFU USB PID).
pub const DFU_MAGIC: u32 = 0xB00D_DF11;
/// The request word after it has been consumed.
pub const DFU_CLEARED: u32 = 0;

/// Whether the request word read at boot asks for the DFU loader.
pub fn dfu_requested(word: u32) -> (res: bool)
    ensures
        res == (word == DFU_MAGIC),
{
    word == DFU_MAGIC
}

} // verus!
