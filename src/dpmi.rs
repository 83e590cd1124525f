//! The register block that a simulated real-mode interrupt takes and hands
//! back, and what the BIOS video and keyboard services put in it.

use vstd::prelude::*;

verus! {

/// BIOS video services.
pub const VIDEO_INT: u8 = 0x10;

/// BIOS keyboard services.
pub const KEYBOARD_INT: u8 = 0x16;

/// Keyboard service that reports whether a keystroke waits, in `eax`.
pub const KB_STATUS_FUNCTION: u32 = 0x100;

/// The zero flag among `status_flags`: set when no keystroke waits.
pub const ZERO_FLAG: u16 = 0x40;

/// Registers passed to and returned by a simulated real-mode interrupt, in
/// the order of the host's call structure.
#[derive(Clone, Copy, Debug, PartialEq, Eq, Structural)]
pub struct DpmiRegs {
    pub edi: u32,
    pub esi: u32,
    pub ebp: u32,
    pub reserved_zero: u32,
    pub ebx: u32,
    pub edx: u32,
    pub ecx: u32,
    pub eax: u32,
    pub status_flags: u16,
    pub es: u16,
    pub ds: u16,
    pub fs: u16,
    pub gs: u16,
    pub ip_ignored: u16,
    pub cs_ignored: u16,
    pub sp: u16,
    pub ss: u16,
}

/// Every register zero.
pub open spec fn zero_regs() -> DpmiRegs {
    DpmiRegs {
        edi: 0,
        esi: 0,
        ebp: 0,
        reserved_zero: 0,
        ebx: 0,
        edx: 0,
        ecx: 0,
        eax: 0,
        status_flags: 0,
        es: 0,
        ds: 0,
        fs: 0,
        gs: 0,
        ip_ignored: 0,
        cs_ignored: 0,
        sp: 0,
        ss: 0,
    }
}

impl DpmiRegs {
    /// A block with every register zero.
    pub fn zero() -> (r: Self)
        ensures
            r == zero_regs(),
    {
        DpmiRegs {
            edi: 0,
            esi: 0,
            ebp: 0,
            reserved_zero: 0,
            ebx: 0,
            edx: 0,
            ecx: 0,
            eax: 0,
            status_flags: 0,
            es: 0,
            ds: 0,
            fs: 0,
            gs: 0,
            ip_ignored: 0,
            cs_ignored: 0,
            sp: 0,
            ss: 0,
        }
    }
}

/// The registers for video service 0, which switches to display `mode`:
/// all zero but `eax`, which holds the mode.
pub fn set_video_mode(mode: u8) -> (r: DpmiRegs)
    ensures
        r == (DpmiRegs { eax: mode as u32, ..zero_regs() }),
{
    let mut regs = DpmiRegs::zero();
    regs.eax = mode as u32;
    regs
}

/// The keystroke that keyboard service 0 returned: the low half of `eax`.
pub fn getchar(regs: &DpmiRegs) -> (r: u16)
    ensures
        r == regs.eax as u16,
{
    regs.eax as u16
}

/// What keyboard service 1 returned: no keystroke when the zero flag is set
/// or the low half of `eax` is zero, else that keystroke.
pub fn kb_status(regs: &DpmiRegs) -> (r: Option<u16>)
    ensures
        r == (if regs.status_flags & ZERO_FLAG != 0 || regs.eax as u16 == 0 {
            None::<u16>
        } else {
            Some(regs.eax as u16)
        }),
{
    match regs.status_flags & ZERO_FLAG {
        0 => match regs.eax as u16 {
            0 => None,
            v => Some(v),
        },
        _ => None,
    }
}

} // verus!
