use lao_orchestrator_core::apple_silicon::is_apple_silicon;
use lao_orchestrator_core::core_scheduler::{
    apple_thread_pool_sizes, core_info_from_counts, get_scheduling_recommendation,
    get_thread_pool_sizes, pool_sizes_for_cores, CoreInfo,
};
use lao_orchestrator_core::cross_platform::Platform;
use lao_orchestrator_core::mps_shaders::{get_optimal_grid_size, FusedOpConfig, ICBConfig, ShaderConfig};
use lao_orchestrator_core::power_management::{
    defer_workloads_for, get_battery_percentage, get_power_state, get_thermal_state,
    optimized_profile, power_state_from_report, should_defer_workloads, thermal_state_from_code,
    ComputeDevice, InferenceMode, PowerState, ThermalState,
};
use lao_orchestrator_core::workflow_executor::{ExecutionOptions, WorkflowExecutor};

#[test]
fn test_apple_silicon_detection() {
    assert!(is_apple_silicon("macos", "aarch64"));
    assert!(!is_apple_silicon("macos", "x86_64"));
    assert!(!is_apple_silicon("linux", "aarch64"));
}

#[test]
fn test_thread_pool_sizing() {
    let (inference, background) = get_thread_pool_sizes(Some(8));
    assert!(inference > 0);
    assert!(background > 0);
    assert_eq!((inference, background), (6, 2));
    assert_eq!(get_thread_pool_sizes(None), (3, 1));
    assert_eq!(get_thread_pool_sizes(Some(1)), (1, 1));
    assert_eq!(apple_thread_pool_sizes(core_info_from_counts(8, 4)), (8, 2));
    assert_eq!(apple_thread_pool_sizes(core_info_from_counts(0, 4)), (4, 2));
    assert!(core_info_from_counts(0, 4).is_none());
}

#[test]
fn test_core_info_detection() {
    let info = CoreInfo { p_core_count: 8, e_core_count: 4, total_cores: 12 };
    assert!(info.total_cores > 0);
    assert_eq!(info.get_p_core_id(9), 1);
    assert_eq!(info.get_e_core_id(5), 9);
    assert_eq!(pool_sizes_for_cores(&info), (8, 2));
    let tiny = CoreInfo { p_core_count: 2, e_core_count: 1, total_cores: 3 };
    assert_eq!(pool_sizes_for_cores(&tiny), (2, 1));
}

#[test]
fn test_scheduling_recommendation() {
    let rec = get_scheduling_recommendation();
    assert!(!rec.is_empty());
}

#[test]
fn exactly_one_platform_flag_is_true() {
    for os in ["linux", "macos", "windows"] {
        let flags = [Platform::is_linux(os), Platform::is_macos(os), Platform::is_windows(os)];
        assert_eq!(flags.iter().filter(|&&f| f).count(), 1);
    }
    assert!(!Platform::is_linux("freebsd"));
}

#[test]
fn test_power_state_detection() {
    let state = power_state_from_report("Now drawing from 'AC Power'");
    assert!(state == PowerState::OnBattery || state == PowerState::PluggedIn);
    assert_eq!(power_state_from_report("Now drawing from 'Battery Power'"), PowerState::OnBattery);
    assert_eq!(power_state_from_report(""), PowerState::Unknown);
    assert_eq!(get_power_state(), PowerState::Unknown);
    assert_eq!(get_battery_percentage(), None);
}

#[test]
fn test_thermal_state() {
    assert_eq!(thermal_state_from_code(" 3\n"), ThermalState::Serious);
    assert_eq!(thermal_state_from_code("4"), ThermalState::Critical);
    assert_eq!(thermal_state_from_code("9"), ThermalState::Normal);
    assert_eq!(thermal_state_from_code("hot"), ThermalState::Normal);
    assert_eq!(get_thermal_state(), ThermalState::Normal);
}

#[test]
fn test_deferred_workload_check() {
    let _should_defer = should_defer_workloads();
    assert!(!should_defer_workloads());
    assert!(defer_workloads_for(PowerState::OnBattery, ThermalState::Normal));
    assert!(defer_workloads_for(PowerState::PluggedIn, ThermalState::Critical));
    assert!(!defer_workloads_for(PowerState::PluggedIn, ThermalState::Fair));
}

#[test]
fn test_shader_config() {
    let config = ShaderConfig::default();
    assert!(config.use_half_precision);
    assert_eq!(config.tile_size, 32);
    assert_eq!(ShaderConfig::for_compatibility().tile_size, 16);
    assert!(!ShaderConfig::for_compatibility().use_imageblock);
    assert_eq!(ShaderConfig::for_performance(), config);
}

#[test]
fn test_fused_op_config() {
    let config = FusedOpConfig::default();
    assert!(config.fuse_attention_with_bias);
}

#[test]
fn test_icb_config() {
    let config = ICBConfig::default();
    assert!(config.max_commands > 0);
    assert_eq!(config.max_commands, 1024);
}

#[test]
fn test_optimal_grid_size() {
    let (w, h, d) = get_optimal_grid_size(1024);
    assert_eq!(w, 32);
    assert_eq!(h, 8);
    assert!(d > 0);
    assert_eq!(d, 4);
    assert_eq!(get_optimal_grid_size(10), (32, 8, 1));
}

#[test]
fn default_options_are_parallel_with_recording() {
    let opts = ExecutionOptions::default();
    assert!(opts.parallel);
    assert!(opts.record_state);
    assert_eq!(opts.state_dir, "workflow_states");
}

#[test]
fn executor_exposes_its_options() {
    let opts = ExecutionOptions {
        parallel: false,
        record_state: false,
        state_dir: "custom_dir".to_string(),
    };
    let executor = WorkflowExecutor::new(opts);
    assert!(!executor.options().parallel);
    assert!(!executor.options().record_state);
    assert_eq!(executor.options().state_dir, "custom_dir");
}

#[test]
fn state_dir_honors_env_override() {
    let opts = ExecutionOptions::with_state_dir_override(Some("env_state_dir".to_string()));
    assert_eq!(opts.state_dir, "env_state_dir");
    assert!(WorkflowExecutor::with_defaults().options().parallel);
}

#[test]
fn test_config_generation() {
    let config = optimized_profile(PowerState::PluggedIn, ThermalState::Normal);
    assert_eq!(config.device.name(), "metal");
    assert_eq!(config.optimization.name(), "performance");
    assert_eq!(config.n_gpu_layers, Some(999));
}

#[test]
fn battery_and_heat_select_the_low_power_profiles() {
    let saver = optimized_profile(PowerState::OnBattery, ThermalState::Nominal);
    assert_eq!(saver.optimization, InferenceMode::BatterySaver);
    assert_eq!(saver.device, ComputeDevice::NeuralEngine);
    assert_eq!(saver.max_threads, 4);
    let ultra = optimized_profile(PowerState::OnBattery, ThermalState::Serious);
    assert_eq!(ultra.optimization.name(), "ultra_battery_saver");
    assert!(ultra.int8);
    assert_eq!(ultra.max_threads, 2);
    let balanced = optimized_profile(PowerState::PluggedIn, ThermalState::Nominal);
    assert_eq!(balanced.n_gpu_layers, Some(35));
    assert_eq!(balanced.batch_size, 2);
    let hot = optimized_profile(PowerState::PluggedIn, ThermalState::Critical);
    assert_eq!(hot.optimization, InferenceMode::ThermalThrottle);
    assert!(!hot.use_gpu);
    let unknown = optimized_profile(PowerState::Unknown, ThermalState::Normal);
    assert_eq!(unknown.optimization.name(), "conservative");
    assert_eq!(unknown.device.name(), "cpu");
}
