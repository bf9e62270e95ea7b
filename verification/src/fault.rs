//! Reset-reason reporting.
//!
//! Two sources decide why the MCU last reset:
//!   1. The reset flags of the RCC_CSR register (RM0090 §7.3.21, p.261):
//!      BORRSTF bit 25, PINRSTF bit 26, PORRSTF bit 27, SFTRSTF bit 28,
//!      IWDGRSTF bit 29. Writing RMVF (bit 24) clears them.
//!   2. A software marker word kept in CCM RAM. It survives a soft reset but
//!      holds garbage after a power-on, so it only counts when PORRSTF is clear.
//!      `set_marker(reason)` gives the word stored there so that the next boot
//!      reports `reason` (used for reasons the hardware cannot tell apart, such
//!      as a remote reboot versus a plain software reset).
//!
//! The hardware sets several flags for one event (a power-on also sets BORRSTF
//! and PINRSTF, every internal reset also pulses NRST and so sets PINRSTF), so
//! the flags are read in order: power-on first, then the marker, then the
//! watchdog, software, brown-out and finally the pin.
use vstd::prelude::*;

verus! {

/// Why the last reset happened.
#[derive(Clone, Copy, Debug, PartialEq, Eq, Structural)]
pub enum ResetReason {
    PowerOn,
    NrstPin,
    Software,
    IwdgTimeout,
    BrownOut,
    RemoteReboot,
    Unknown,
}

/// The name under which a reason is reported (logs, web state).
pub open spec fn reason_name(r: ResetReason) -> Seq<char> {
    match r {
        ResetReason::PowerOn => "power_on"@,
        ResetReason::NrstPin => "nrst_pin"@,
        ResetReason::Software => "software"@,
        ResetReason::IwdgTimeout => "iwdg_timeout"@,
        ResetReason::BrownOut => "brown_out"@,
        ResetReason::RemoteReboot => "remote_reboot"@,
        ResetReason::Unknown => "unknown"@,
    }
}

impl ResetReason {
    /// The reported name of the reason, e.g. `"power_on"`.
    pub fn as_str(self) -> (res: &'static str)
        ensures
            res@ == reason_name(self),
    {
        match self {
            ResetReason::PowerOn => "power_on",
            ResetReason::NrstPin => "nrst_pin",
            ResetReason::Software => "software",
            ResetReason::IwdgTimeout => "iwdg_timeout",
            ResetReason::BrownOut => "brown_out",
            ResetReason::RemoteReboot => "remote_reboot",
            ResetReason::Unknown => "unknown",
        }
    }
}

/// Two different reasons are never reported under the same name.
pub proof fn law_reason_names_distinct(a: ResetReason, b: ResetReason)
    requires
        a != b,
    ensures
        reason_name(a) != reason_name(b),
{
    reveal_strlit("power_on");
    reveal_strlit("nrst_pin");
    reveal_strlit("software");
    reveal_strlit("iwdg_timeout");
    reveal_strlit("brown_out");
    reveal_strlit("remote_reboot");
    reveal_strlit("unknown");
    assert(reason_name(a).len() != reason_name(b).len() || reason_name(a)[0] != reason_name(
        b,
    )[0] || reason_name(a)[1] != reason_name(b)[1]);
}

/// RCC_CSR.RMVF: writing it clears the reset flags (RM0090 §7.3.21).
pub const CSR_RMVF: u32 = 0x0100_0000;
/// RCC_CSR.BORRSTF.
pub const CSR_BORRSTF: u32 = 0x0200_0000;
/// RCC_CSR.PINRSTF.
pub const CSR_PINRSTF: u32 = 0x0400_0000;
/// RCC_CSR.PORRSTF.
pub const CSR_PORRSTF: u32 = 0x0800_0000;
/// RCC_CSR.SFTRSTF.
pub const CSR_SFTRSTF: u32 = 0x1000_0000;
/// RCC_CSR.IWDGRSTF.
pub const CSR_IWDGRSTF: u32 = 0x2000_0000;

/// Upper half of every valid marker word; the lower half holds the reason's code.
pub const MARKER_TAG: u32 = 0xFA17_0000;
/// The marker value after it has been cleared: it names no reason.
pub const MARKER_CLEARED: u32 = 0;

pub open spec fn reason_code(r: ResetReason) -> u32 {
    match r {
        ResetReason::PowerOn => 1,
        ResetReason::NrstPin => 2,
        ResetReason::Software => 3,
        ResetReason::IwdgTimeout => 4,
        ResetReason::BrownOut => 5,
        ResetReason::RemoteReboot => 6,
        ResetReason::Unknown => 7,
    }
}

/// The marker word `set_marker` stores for a reason.
pub open spec fn spec_marker_word(r: ResetReason) -> u32 {
    (MARKER_TAG + reason_code(r)) as u32
}

/// The reason a marker word names, if it is a valid marker.
pub open spec fn spec_reason_from_marker(word: u32) -> Option<ResetReason> {
    if word == MARKER_TAG + 1 {
        Some(ResetReason::PowerOn)
    } else if word == MARKER_TAG + 2 {
        Some(ResetReason::NrstPin)
    } else if word == MARKER_TAG + 3 {
        Some(ResetReason::Software)
    } else if word == MARKER_TAG + 4 {
        Some(ResetReason::IwdgTimeout)
    } else if word == MARKER_TAG + 5 {
        Some(ResetReason::BrownOut)
    } else if word == MARKER_TAG + 6 {
        Some(ResetReason::RemoteReboot)
    } else if word == MARKER_TAG + 7 {
        Some(ResetReason::Unknown)
    } else {
        None
    }
}

/// Whether the single-bit flag `flag` (a power of two) is set in `csr`.
pub open spec fn flag_set(csr: u32, flag: u32) -> bool {
    (csr / flag) % 2 == 1
}

/// Testing a flag with a mask is testing its bit.
proof fn lemma_flags(csr: u32)
    ensures
        (csr & CSR_PORRSTF != 0) == flag_set(csr, CSR_PORRSTF),
        (csr & CSR_IWDGRSTF != 0) == flag_set(csr, CSR_IWDGRSTF),
        (csr & CSR_SFTRSTF != 0) == flag_set(csr, CSR_SFTRSTF),
        (csr & CSR_BORRSTF != 0) == flag_set(csr, CSR_BORRSTF),
        (csr & CSR_PINRSTF != 0) == flag_set(csr, CSR_PINRSTF),
{
    assert((csr & 0x0800_0000 != 0) == ((csr / 0x0800_0000) % 2 == 1)) by (bit_vector);
    assert((csr & 0x2000_0000 != 0) == ((csr / 0x2000_0000) % 2 == 1)) by (bit_vector);
    assert((csr & 0x1000_0000 != 0) == ((csr / 0x1000_0000) % 2 == 1)) by (bit_vector);
    assert((csr & 0x0200_0000 != 0) == ((csr / 0x0200_0000) % 2 == 1)) by (bit_vector);
    assert((csr & 0x0400_0000 != 0) == ((csr / 0x0400_0000) % 2 == 1)) by (bit_vector);
}

/// The reason reported for the RCC_CSR value `csr` and the CCM marker `marker`.
pub open spec fn spec_reset_reason(csr: u32, marker: u32) -> ResetReason {
    if flag_set(csr, CSR_PORRSTF) {
        ResetReason::PowerOn
    } else if spec_reason_from_marker(marker) is Some {
        spec_reason_from_marker(marker).unwrap()
    } else if flag_set(csr, CSR_IWDGRSTF) {
        ResetReason::IwdgTimeout
    } else if flag_set(csr, CSR_SFTRSTF) {
        ResetReason::Software
    } else if flag_set(csr, CSR_BORRSTF) {
        ResetReason::BrownOut
    } else if flag_set(csr, CSR_PINRSTF) {
        ResetReason::NrstPin
    } else {
        ResetReason::Unknown
    }
}

/// The marker word to store in CCM so that the NEXT boot reports `reason`
/// (used before a remote reboot); the caller writes it to the marker word.
pub fn set_marker(reason: ResetReason) -> (res: u32)
    ensures
        res == spec_marker_word(reason),
        spec_reason_from_marker(res) == Some(reason),
{
    let code: u32 = match reason {
        ResetReason::PowerOn => 1,
        ResetReason::NrstPin => 2,
        ResetReason::Software => 3,
        ResetReason::IwdgTimeout => 4,
        ResetReason::BrownOut => 5,
        ResetReason::RemoteReboot => 6,
        ResetReason::Unknown => 7,
    };
    MARKER_TAG + code
}

/// The reason a marker word names, or None for a cleared or garbage word.
pub fn reason_from_marker(word: u32) -> (res: Option<ResetReason>)
    ensures
        res == spec_reason_from_marker(word),
{
    if word < MARKER_TAG + 1 || word > MARKER_TAG + 7 {
        return None;
    }
    let code = word - MARKER_TAG;
    if code == 1 {
        Some(ResetReason::PowerOn)
    } else if code == 2 {
        Some(ResetReason::NrstPin)
    } else if code == 3 {
        Some(ResetReason::Software)
    } else if code == 4 {
        Some(ResetReason::IwdgTimeout)
    } else if code == 5 {
        Some(ResetReason::BrownOut)
    } else if code == 6 {
        Some(ResetReason::RemoteReboot)
    } else {
        Some(ResetReason::Unknown)
    }
}

/// Decide why the MCU reset from the RCC_CSR value and the CCM marker word
/// read once at boot. The caller then clears both: writes `CSR_RMVF` to
/// RCC_CSR and `MARKER_CLEARED` to the marker.
pub fn read_and_clear(csr: u32, marker: u32) -> (res: ResetReason)
    ensures
        res == spec_reset_reason(csr, marker),
{
    proof {
        lemma_flags(csr);
    }
    if csr & CSR_PORRSTF != 0 {
        return ResetReason::PowerOn;
    }
    if let Some(r) = reason_from_marker(marker) {
        return r;
    }
    if csr & CSR_IWDGRSTF != 0 {
        ResetReason::IwdgTimeout
    } else if csr & CSR_SFTRSTF != 0 {
        ResetReason::Software
    } else if csr & CSR_BORRSTF != 0 {
        ResetReason::BrownOut
    } else if csr & CSR_PINRSTF != 0 {
        ResetReason::NrstPin
    } else {
        ResetReason::Unknown
    }
}

/// A marker set before a reset is what the next boot reports, whatever
/// hardware flags the reset left, unless the reset was a power-on (after
/// which the CCM word is not trusted).
pub proof fn law_marker_round_trip(reason: ResetReason, csr: u32)
    requires
        !flag_set(csr, CSR_PORRSTF),
    ensures
        spec_reset_reason(csr, spec_marker_word(reason)) == reason,
{
}

/// The reported reason is backed by its evidence: a power-on flag (RCC_CSR
/// bit 27) always reports a power-on; otherwise a reason comes from a valid
/// marker word or from the flag that names it: watchdog bit 29, software
/// bit 28, brown-out bit 25, pin bit 26; Unknown only when none of these flags
/// is set and the marker is not valid.
pub proof fn law_reason_has_evidence(csr: u32, marker: u32)
    ensures
        (csr / 0x0800_0000) % 2 == 1 ==> spec_reset_reason(csr, marker) == ResetReason::PowerOn,
        (csr / 0x0800_0000) % 2 == 0 && spec_reason_from_marker(marker) is Some ==> spec_reset_reason(
            csr,
            marker,
        ) == spec_reason_from_marker(marker).unwrap(),
        (csr / 0x0800_0000) % 2 == 0 && spec_reason_from_marker(marker) is None ==> {
            let r = spec_reset_reason(csr, marker);
            &&& r == ResetReason::IwdgTimeout <==> (csr / 0x2000_0000) % 2 == 1
            &&& r == ResetReason::Software ==> (csr / 0x1000_0000) % 2 == 1
            &&& r == ResetReason::BrownOut ==> (csr / 0x0200_0000) % 2 == 1
            &&& r == ResetReason::NrstPin ==> (csr / 0x0400_0000) % 2 == 1
            &&& r != ResetReason::PowerOn && r != ResetReason::RemoteReboot
            &&& r == ResetReason::Unknown <==> ((csr / 0x2000_0000) % 2 == 0 && (csr / 0x1000_0000)
                % 2 == 0 && (csr / 0x0200_0000) % 2 == 0 && (csr / 0x0400_0000) % 2 == 0)
        },
{
}

/// Only words written by `set_marker` are valid markers: a valid word is the
/// tag `0xFA17_0000` plus a code from 1 to 7, and each code names one reason.
pub proof fn law_valid_markers(word: u32)
    ensures
        spec_reason_from_marker(word) is Some <==> 0xFA17_0001 <= word <= 0xFA17_0007,
        spec_reason_from_marker(word) matches Some(r) ==> spec_marker_word(r) == word,
{
}

/// A cleared marker names no reason, so the next boot goes by the flags alone.
pub proof fn law_cleared_marker_is_silent(csr: u32)
    ensures
        spec_reason_from_marker(MARKER_CLEARED) is None,
        spec_reset_reason(csr, MARKER_CLEARED) == spec_reset_reason(csr, 0xFFFF_FFFF),
{
}

/// Different reasons are stored as different marker words.
pub proof fn law_marker_words_distinct(a: ResetReason, b: ResetReason)
    requires
        a != b,
    ensures
        spec_marker_word(a) != spec_marker_word(b),
{
}

} // verus!
