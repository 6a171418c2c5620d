//! Power and thermal state, and whether heavy work should wait for better
//! conditions. On hosts without power reporting the state is unknown and normal.
use vstd::prelude::*;
use crate::text::{digits_value, parse_u32, parse_unsigned, str_contains, has_infix, trim, trim_str};

verus! {

/// Whether the host runs on battery or mains power.
#[derive(Debug, Clone, Copy, PartialEq, Eq, Structural)]
pub enum PowerState {
    OnBattery,
    PluggedIn,
    Unknown,
}

/// The host's thermal pressure, from normal to critical.
#[derive(Debug, Clone, Copy, PartialEq, Eq, Structural)]
pub enum ThermalState {
    Normal,
    Nominal,
    Fair,
    Serious,
    Critical,
}

/// The power state on a host that does not report one: unknown.
pub fn get_power_state() -> (r: PowerState)
    ensures
        r == PowerState::Unknown,
{
    PowerState::Unknown
}

/// The battery level on a host that does not report one: none.
pub fn get_battery_percentage() -> (r: Option<u32>)
    ensures
        r is None,
{
    None
}

/// The thermal state on a host that does not report one: normal.
pub fn get_thermal_state() -> (r: ThermalState)
    ensures
        r == ThermalState::Normal,
{
    ThermalState::Normal
}

/// Whether heavy work should wait: on battery, or under serious or critical
/// thermal pressure.
pub open spec fn defers(power: PowerState, thermal: ThermalState) -> bool {
    power == PowerState::OnBattery || thermal == ThermalState::Serious || thermal
        == ThermalState::Critical
}

/// Whether heavy work should wait under the given conditions.
pub fn defer_workloads_for(power: PowerState, thermal: ThermalState) -> (r: bool)
    ensures
        r == defers(power, thermal),
{
    match (power, thermal) {
        (PowerState::OnBattery, _) => true,
        (_, ThermalState::Serious) | (_, ThermalState::Critical) => true,
        _ => false,
    }
}

/// Whether heavy work should wait on this host, by its reported conditions.
pub fn should_defer_workloads() -> (r: bool)
    ensures
        r == defers(PowerState::Unknown, ThermalState::Normal),
        !r,
{
    defer_workloads_for(get_power_state(), get_thermal_state())
}

/// The power state a battery report (the output of `pmset -g batt`) describes: on
/// mains when it mentions `AC Power`, else on battery when it mentions
/// `Battery Power`, else unknown.
pub fn power_state_from_report(report: &str) -> (r: PowerState)
    ensures
        r == if has_infix(report@, "AC Power"@) {
            PowerState::PluggedIn
        } else if has_infix(report@, "Battery Power"@) {
            PowerState::OnBattery
        } else {
            PowerState::Unknown
        },
{
    if str_contains(report, "AC Power") {
        PowerState::PluggedIn
    } else if str_contains(report, "Battery Power") {
        PowerState::OnBattery
    } else {
        PowerState::Unknown
    }
}

/// The thermal state a thermal status code (the output of
/// `sysctl -n kern.thermalstatus`) gives: its trimmed number from 0 (normal) to 4
/// (critical); anything else reads as normal.
pub fn thermal_state_from_code(code: &str) -> (r: ThermalState)
    ensures
        r == match parse_unsigned(trim(code@), u32::MAX as nat) {
            Some(n) => if n == 1 {
                ThermalState::Nominal
            } else if n == 2 {
                ThermalState::Fair
            } else if n == 3 {
                ThermalState::Serious
            } else if n == 4 {
                ThermalState::Critical
            } else {
                ThermalState::Normal
            },
            None => ThermalState::Normal,
        },
{
    let t = trim_str(code);
    match parse_u32(t.as_str()) {
        Some(1) => ThermalState::Nominal,
        Some(2) => ThermalState::Fair,
        Some(3) => ThermalState::Serious,
        Some(4) => ThermalState::Critical,
        _ => ThermalState::Normal,
    }
}

/// What inference is tuned for under given power and thermal conditions.
#[derive(Debug, Clone, Copy, PartialEq, Eq, Structural)]
pub enum InferenceMode {
    BatterySaver,
    UltraBatterySaver,
    Performance,
    Balanced,
    ThermalThrottle,
    Conservative,
}

/// Where inference runs.
#[derive(Debug, Clone, Copy, PartialEq, Eq, Structural)]
pub enum ComputeDevice {
    NeuralEngine,
    Cpu,
    Metal,
}

/// The inference settings chosen for a power and thermal state.
#[derive(Debug, Clone, Copy, PartialEq, Eq, Structural)]
pub struct InferenceProfile {
    pub optimization: InferenceMode,
    pub device: ComputeDevice,
    pub use_gpu: bool,
    pub max_threads: u32,
    pub batch_size: u32,
    /// Layers offloaded to the GPU, when it is used.
    pub n_gpu_layers: Option<u32>,
    /// Whether weights are quantized to 8-bit integers.
    pub int8: bool,
}

impl InferenceMode {
    /// The mode's name in configuration output.
    pub fn name(&self) -> (r: &'static str)
        ensures
            r@ == match *self {
                InferenceMode::BatterySaver => "battery_saver"@,
                InferenceMode::UltraBatterySaver => "ultra_battery_saver"@,
                InferenceMode::Performance => "performance"@,
                InferenceMode::Balanced => "balanced"@,
                InferenceMode::ThermalThrottle => "thermal_throttle"@,
                InferenceMode::Conservative => "conservative"@,
            },
    {
        match self {
            InferenceMode::BatterySaver => "battery_saver",
            InferenceMode::UltraBatterySaver => "ultra_battery_saver",
            InferenceMode::Performance => "performance",
            InferenceMode::Balanced => "balanced",
            InferenceMode::ThermalThrottle => "thermal_throttle",
            InferenceMode::Conservative => "conservative",
        }
    }
}

impl ComputeDevice {
    /// The device's name in configuration output.
    pub fn name(&self) -> (r: &'static str)
        ensures
            r@ == match *self {
                ComputeDevice::NeuralEngine => "ane"@,
                ComputeDevice::Cpu => "cpu"@,
                ComputeDevice::Metal => "metal"@,
            },
    {
        match self {
            ComputeDevice::NeuralEngine => "ane",
            ComputeDevice::Cpu => "cpu",
            ComputeDevice::Metal => "metal",
        }
    }
}

/// The settings for a power and thermal state: on battery, the neural engine with
/// four threads when the temperature is normal or nominal, else the CPU with two
/// threads and 8-bit weights; plugged in, the GPU fully offloaded with eight threads
/// when normal, partly offloaded with six when nominal, else the CPU with four; an
/// unknown power state gets the CPU with four threads.
pub open spec fn profile_for(power: PowerState, thermal: ThermalState) -> InferenceProfile {
    match (power, thermal) {
        (PowerState::OnBattery, ThermalState::Normal) | (PowerState::OnBattery, ThermalState::Nominal) => InferenceProfile {
            optimization: InferenceMode::BatterySaver,
            device: ComputeDevice::NeuralEngine,
            use_gpu: false,
            max_threads: 4,
            batch_size: 1,
            n_gpu_layers: None,
            int8: false,
        },
        (PowerState::OnBattery, _) => InferenceProfile {
            optimization: InferenceMode::UltraBatterySaver,
            device: ComputeDevice::Cpu,
            use_gpu: false,
            max_threads: 2,
            batch_size: 1,
            n_gpu_layers: None,
            int8: true,
        },
        (PowerState::PluggedIn, ThermalState::Normal) => InferenceProfile {
            optimization: InferenceMode::Performance,
            device: ComputeDevice::Metal,
            use_gpu: true,
            max_threads: 8,
            batch_size: 4,
            n_gpu_layers: Some(999),
            int8: false,
        },
        (PowerState::PluggedIn, ThermalState::Nominal) => InferenceProfile {
            optimization: InferenceMode::Balanced,
            device: ComputeDevice::Metal,
            use_gpu: true,
            max_threads: 6,
            batch_size: 2,
            n_gpu_layers: Some(35),
            int8: false,
        },
        (PowerState::PluggedIn, _) => InferenceProfile {
            optimization: InferenceMode::ThermalThrottle,
            device: ComputeDevice::Cpu,
            use_gpu: false,
            max_threads: 4,
            batch_size: 1,
            n_gpu_layers: None,
            int8: false,
        },
        (PowerState::Unknown, _) => InferenceProfile {
            optimization: InferenceMode::Conservative,
            device: ComputeDevice::Cpu,
            use_gpu: false,
            max_threads: 4,
            batch_size: 1,
            n_gpu_layers: None,
            int8: false,
        },
    }
}

/// The inference settings for a power and thermal state, as `profile_for` gives them.
pub fn optimized_profile(power: PowerState, thermal: ThermalState) -> (r: InferenceProfile)
    ensures
        r == profile_for(power, thermal),
{
    match (power, thermal) {
        (PowerState::OnBattery, ThermalState::Normal) | (PowerState::OnBattery, ThermalState::Nominal) => InferenceProfile {
            optimization: InferenceMode::BatterySaver,
            device: ComputeDevice::NeuralEngine,
            use_gpu: false,
            max_threads: 4,
            batch_size: 1,
            n_gpu_layers: None,
            int8: false,
        },
        (PowerState::OnBattery, _) => InferenceProfile {
            optimization: InferenceMode::UltraBatterySaver,
            device: ComputeDevice::Cpu,
            use_gpu: false,
            max_threads: 2,
            batch_size: 1,
            n_gpu_layers: None,
            int8: true,
        },
        (PowerState::PluggedIn, ThermalState::Normal) => InferenceProfile {
            optimization: InferenceMode::Performance,
            device: ComputeDevice::Metal,
            use_gpu: true,
            max_threads: 8,
            batch_size: 4,
            n_gpu_layers: Some(999),
            int8: false,
        },
        (PowerState::PluggedIn, ThermalState::Nominal) => InferenceProfile {
            optimization: InferenceMode::Balanced,
            device: ComputeDevice::Metal,
            use_gpu: true,
            max_threads: 6,
            batch_size: 2,
            n_gpu_layers: Some(35),
            int8: false,
        },
        (PowerState::PluggedIn, _) => InferenceProfile {
            optimization: InferenceMode::ThermalThrottle,
            device: ComputeDevice::Cpu,
            use_gpu: false,
            max_threads: 4,
            batch_size: 1,
            n_gpu_layers: None,
            int8: false,
        },
        (PowerState::Unknown, _) => InferenceProfile {
            optimization: InferenceMode::Conservative,
            device: ComputeDevice::Cpu,
            use_gpu: false,
            max_threads: 4,
            batch_size: 1,
            n_gpu_layers: None,
            int8: false,
        },
    }
}

/// The GPU is used exactly when the host is plugged in and runs normal or nominal,
/// and a profile that defers heavy work never uses it.
pub proof fn lemma_gpu_only_when_plugged_in_and_cool(power: PowerState, thermal: ThermalState)
    ensures
        profile_for(power, thermal).use_gpu <==> (power == PowerState::PluggedIn && (thermal
            == ThermalState::Normal || thermal == ThermalState::Nominal)),
        defers(power, thermal) ==> !profile_for(power, thermal).use_gpu,
{
}

} // verus!
