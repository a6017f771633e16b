//! Hardware abstraction of the power registers.
//!
//! The registers are tracked in software: a read gives fixed defaults, and a write
//! is handed to the caller as a register and a value.

pub mod msr;
pub mod mwait_hints;

use vstd::prelude::*;

verus! {

/// A write to a model-specific register.
#[derive(Clone, Copy, Debug, PartialEq, Eq, Structural)]
pub struct MsrWrite {
    /// Address of the register.
    pub register: u32,
    /// Value.
    pub value: u64,
}

/// Reads a register. Every register reads as zero.
pub fn read_msr(_msr: u32) -> (r: u64)
    ensures
        r == 0,
{
    0
}

/// Temperature of the CPU in degrees Celsius.
pub fn read_cpu_temperature() -> (r: u32)
    ensures
        r == 45,
{
    45
}

/// Maximum junction temperature in degrees Celsius.
pub fn read_tj_max() -> (r: u32)
    ensures
        r == 100,
{
    100
}

/// Energy of the package in microjoules.
pub fn read_package_energy_uj() -> (r: u64)
    ensures
        r == 0,
{
    0
}

/// Energy of the cores in microjoules.
pub fn read_core_energy_uj() -> (r: u64)
    ensures
        r == 0,
{
    0
}

/// The write that requests a frequency ratio: the ratio stands in the second byte.
pub fn set_pstate_ratio(ratio: u8) -> (w: MsrWrite)
    ensures
        w == (MsrWrite { register: msr::IA32_PERF_CTL, value: (ratio * 0x100) as u64 }),
{
    let r: u64 = ratio as u64;
    assert(r << 8 == r * 0x100) by (bit_vector)
        requires
            r <= 0xff,
    ;
    MsrWrite { register: msr::IA32_PERF_CTL, value: r << 8 }
}

/// The frequency ratio in a value of the status register: its second byte.
pub fn pstate_ratio_of(status: u64) -> (r: u8)
    ensures
        r == (status / 0x100) % 0x100,
{
    assert((status >> 8) & 0xFF == (status / 0x100) % 0x100) by (bit_vector);
    ((status >> 8) & 0xFF) as u8
}

/// The frequency ratio in effect.
pub fn read_pstate_ratio() -> (r: u8)
    ensures
        r == 0,
{
    pstate_ratio_of(read_msr(msr::IA32_PERF_STATUS))
}

/// The write that requests a range of hardware-managed performance: one byte each
/// for minimum, maximum, desired performance and energy preference.
pub fn set_hwp_request(min: u8, max: u8, desired: u8, epp: u8) -> (w: MsrWrite)
    ensures
        w == (MsrWrite {
            register: msr::IA32_HWP_REQUEST,
            value: (epp * 0x100_0000 + desired * 0x1_0000 + max * 0x100 + min) as u64,
        }),
{
    let e: u64 = epp as u64;
    let d: u64 = desired as u64;
    let x: u64 = max as u64;
    let n: u64 = min as u64;
    assert((e << 24 | d << 16 | x << 8 | n) == e * 0x100_0000 + d * 0x1_0000 + x * 0x100 + n)
        by (bit_vector)
        requires
            e <= 0xff,
            d <= 0xff,
            x <= 0xff,
            n <= 0xff,
    ;
    MsrWrite { register: msr::IA32_HWP_REQUEST, value: e << 24 | d << 16 | x << 8 | n }
}

/// The counters at the actual and at the base frequency.
pub fn read_perf_counters() -> (r: (u64, u64))
    ensures
        r == (0u64, 0u64),
{
    (read_msr(msr::IA32_APERF), read_msr(msr::IA32_MPERF))
}

/// Whether performance states can be managed by the hardware.
pub fn hwp_supported() -> (r: bool)
    ensures
        !r,
{
    false
}

/// Whether energy can be metered by the hardware.
pub fn rapl_supported() -> (r: bool)
    ensures
        !r,
{
    false
}

} // verus!
