//! Addresses of model-specific registers.

use vstd::prelude::*;

verus! {

/// Request of a performance state.
pub const IA32_PERF_CTL: u32 = 0x199;

/// Performance state in effect.
pub const IA32_PERF_STATUS: u32 = 0x198;

/// Thermal status.
pub const IA32_THERM_STATUS: u32 = 0x19C;

/// Thermal status of the package.
pub const IA32_PACKAGE_THERM_STATUS: u32 = 0x1B1;

/// Temperature target.
pub const MSR_TEMPERATURE_TARGET: u32 = 0x1A2;

/// Units of the energy registers.
pub const MSR_RAPL_POWER_UNIT: u32 = 0x606;

/// Energy of the package.
pub const MSR_PKG_ENERGY_STATUS: u32 = 0x611;

/// Energy of the cores.
pub const MSR_PP0_ENERGY_STATUS: u32 = 0x639;

/// Power limit of the package.
pub const MSR_PKG_POWER_LIMIT: u32 = 0x610;

/// Power information of the package.
pub const MSR_PKG_POWER_INFO: u32 = 0x614;

/// Request of hardware-managed performance states.
pub const IA32_HWP_REQUEST: u32 = 0x774;

/// Capabilities of hardware-managed performance states.
pub const IA32_HWP_CAPABILITIES: u32 = 0x771;

/// Counter at the base frequency.
pub const IA32_MPERF: u32 = 0xE7;

/// Counter at the actual frequency.
pub const IA32_APERF: u32 = 0xE8;

} // verus!
