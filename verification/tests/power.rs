use maios_kernel::mps;
use maios_kernel::mps::budget::{EnergyWindow, PackageBudget, PowerLimits};
use maios_kernel::mps::cstate::{cstate_info, CStateGovernor};
use maios_kernel::mps::energy::{
    default_energy_model, efficiency_core_model, estimate_task_energy, is_more_efficient, EnergyTracker,
};
use maios_kernel::mps::governor::{policy, set_policy, GovernorPolicy};
use maios_kernel::mps::hw::{msr, pstate_ratio_of, set_hwp_request, set_pstate_ratio};
use maios_kernel::mps::pstate::PStateController;
use maios_kernel::mps::thermal::{ThermalState, ThrottleLevel};
use maios_kernel::mps::{thermal, MaiPower};

fn machine() -> MaiPower {
    let mut m = MaiPower::new(4, 2);
    for cpu in m.cpus.iter_mut() {
        cpu.max_freq_mhz = 4000;
        cpu.min_freq_mhz = 500;
    }
    m
}

#[test]
fn packages_share_the_cpus() {
    let m = machine();
    assert_eq!(m.packages[0].cpu_ids, vec![0, 1]);
    assert_eq!(m.packages[1].cpu_ids, vec![2, 3]);
    assert_eq!(m.packages[0].power_budget_mw, 65_000);
    assert_eq!(m.cpus[3].package_id, 1);
    let mut slot = None;
    mps::init(&mut slot, 2, 1);
    assert_eq!(mps::get(&slot).num_cpus, 2);
    let mut odd = None;
    mps::init(&mut odd, 5, 2);
    let m = mps::get(&odd);
    assert_eq!(m.packages[0].cpu_ids, vec![0, 1]);
    assert_eq!(m.packages[1].cpu_ids, vec![2, 3, 4]);
    assert_eq!(m.cpus[4].package_id, 1);
}

#[test]
fn performance_and_minimal_are_fixed() {
    let mut m = machine();
    m.tick(GovernorPolicy::Performance, 0);
    assert_eq!(m.cpus[0].current_pstate, 0);
    assert_eq!(m.cpus[0].current_freq_mhz, 4000);
    assert_eq!(m.cpus[0].freq_ratio(), 1000);
    m.tick(GovernorPolicy::Minimal, 0);
    assert_eq!(m.cpus[0].current_pstate, 7);
    assert_eq!(m.cpus[0].current_freq_mhz, 500);
    assert_eq!(m.cpus[0].freq_ratio(), 125);
}

#[test]
fn balanced_follows_utilisation() {
    let mut m = machine();
    m.update_utilization(0, 1000);
    m.tick(GovernorPolicy::Balanced, 0);
    assert_eq!(m.cpus[0].current_pstate, 0);
    m.update_utilization(0, 0);
    m.tick(GovernorPolicy::Balanced, 0);
    assert_eq!(m.cpus[0].current_pstate, 7);
    assert_eq!(m.cpus[0].current_freq_mhz, 500);
    m.update_utilization(0, 400);
    m.tick(GovernorPolicy::Balanced, 0);
    assert_eq!(m.cpus[0].current_pstate, 4);
    assert_eq!(m.cpus[0].current_freq_mhz, 2000);
}

#[test]
fn throttling_and_budget_cap_the_governor() {
    let mut m = machine();
    m.update_utilization(0, 1000);
    m.cpus[0].throttled = true;
    m.tick(GovernorPolicy::Balanced, 0);
    assert_eq!(m.cpus[0].current_pstate, 4);
    m.cpus[0].throttled = false;
    m.packages[0].current_power_mw = 65_001;
    m.tick(GovernorPolicy::Balanced, 0);
    assert_eq!(m.cpus[0].current_pstate, 3);
    assert_eq!(m.cpus[0].current_freq_mhz, 2500);
}

#[test]
fn policy_can_be_changed() {
    let mut p = GovernorPolicy::Balanced;
    set_policy(&mut p, GovernorPolicy::PowerSave);
    assert_eq!(policy(&p), GovernorPolicy::PowerSave);
}

#[test]
fn hot_cpu_throttles_until_cool() {
    let mut m = machine();
    m.cpus[1].temperature_c = 90;
    thermal::check(&mut m, 1);
    assert!(m.cpus[1].throttled && m.any_throttled);
    assert_eq!(m.packages[0].temperature_c, 90);
    m.cpus[1].temperature_c = 85;
    thermal::check(&mut m, 1);
    assert!(m.cpus[1].throttled);
    m.cpus[1].temperature_c = 80;
    thermal::check(&mut m, 1);
    assert!(!m.cpus[1].throttled && !m.any_throttled);
    assert_eq!(m.packages[0].temperature_c, 80);
}

#[test]
fn throttle_level_has_hysteresis() {
    let mut t = ThermalState::new();
    assert_eq!(t.update(79), ThrottleLevel::Unthrottled);
    assert_eq!(t.update(80), ThrottleLevel::Mild);
    assert_eq!(t.pstate_cap(), 2);
    assert_eq!(t.update(100), ThrottleLevel::Severe);
    assert_eq!(t.update(96), ThrottleLevel::Severe);
    assert_eq!(t.update(95), ThrottleLevel::Moderate);
    assert_eq!(t.update(105), ThrottleLevel::Critical);
    assert_eq!(t.pstate_cap(), 7);
    assert_eq!(t.update(10), ThrottleLevel::Unthrottled);
    assert_eq!(t.pstate_cap(), 0);
    assert_eq!(t.peak_temperature, 105);
}

#[test]
fn idle_state_follows_predicted_idle() {
    let mut g = CStateGovernor::new();
    assert_eq!(g.select(1, 6), 0);
    assert_eq!(g.select(4, 6), 1);
    assert_eq!(g.select(100_000, 1), 1);
    let deep = g.select(100_000, 10);
    assert_eq!(cstate_info(deep).unwrap().exit_latency_us, 300);
    assert!(cstate_info(99).is_none());
    assert_eq!(g.correction_factor, 1024);
    g.update(50_000);
    assert_eq!(g.correction_factor, (1024 * 7 + 512) / 8);
    assert_eq!(g.last_actual_us, 50_000);
    g.record_entry(1);
    g.record_residency(1, 77);
}

#[test]
fn performance_state_for_utilisation() {
    let mut c = PStateController::new();
    assert_eq!(c.select_for_util(1000), 0);
    assert_eq!(c.select_for_util(0), 7);
    assert_eq!(c.select_for_util(400), 4);
    assert_eq!(c.freq_for_pstate(4), 2000);
    assert_eq!(c.power_for_pstate(7), 65);
    assert_eq!(c.freq_for_pstate(200), 0);
    c.set_target(3);
    assert_eq!(c.apply(), 2500);
    c.set_thermal_cap(4);
    c.set_target(0);
    assert_eq!(c.current, 4);
    c.clear_thermal_cap();
    c.set_target(0);
    assert_eq!(c.current, 0);
}

#[test]
fn task_energy_is_the_share_of_the_operating_point() {
    let m = default_energy_model();
    assert_eq!(estimate_task_energy(&m, 0, 100), 5_000 * 100 / 200 + 2_000 * 100 / 200);
    assert_eq!(estimate_task_energy(&m, 1000, 100), 85_000 * 100 / 1024 + 2_000 * 100 / 1024);
    let e = efficiency_core_model();
    assert!(is_more_efficient(&e, 0, &m, 0, 100));
    assert!(!is_more_efficient(&m, 0, &e, 0, 100));
}

#[test]
fn energy_tracker_sums() {
    let mut t = EnergyTracker::new();
    t.add(10);
    t.add(5);
    assert_eq!(t.reset_window(), 15);
    t.add(1);
    assert_eq!(t.total_uj, 16);
    assert_eq!(t.reset_window(), 1);
}

#[test]
fn energy_window_forgets_old_samples() {
    let mut w = EnergyWindow::new(10);
    assert_eq!(w.average_power_mw(), 0);
    w.push(100);
    w.push(300);
    assert_eq!(w.total_mj(), 400);
    assert_eq!(w.average_power_mw(), 20_000);
    for _ in 0..64 {
        w.push(1);
    }
    assert_eq!(w.total_mj(), 64);
}

#[test]
fn budget_counts_violations() {
    let mut b = PackageBudget::new(PowerLimits::default());
    assert!(!b.check());
    assert_eq!(b.headroom(), 65_000);
    let period = b.long_term.sample_period_ms;
    b.long_term.push(66 * period);
    assert!(b.check());
    assert!(b.is_over_budget());
    assert_eq!(b.pl1_violations, 1);
    assert_eq!(b.pl2_violations, 0);
    assert_eq!(b.headroom(), 0);
    let short = b.short_term.sample_period_ms;
    b.short_term.push(82 * short);
    assert!(b.check());
    assert_eq!(b.pl2_violations, 1);
}

#[test]
fn efficient_cpu_is_cheapest() {
    let mut m = machine();
    for cpu in m.cpus.iter_mut() {
        cpu.current_freq_mhz = 2000;
    }
    m.cpus[2].energy_cost = 10;
    assert_eq!(m.energy_cost(0), 50);
    assert_eq!(m.energy_cost(2), 5);
    assert_eq!(m.energy_cost(99), u32::MAX);
    assert_eq!(m.suggest_efficient_cpu(100), 2);
    m.cpus[2].throttled = true;
    assert_eq!(m.suggest_efficient_cpu(100), 0);
    m.update_utilization(0, 950);
    assert_eq!(m.suggest_efficient_cpu(100), 1);
    let s = m.snapshot();
    assert_eq!(s.num_cpus, 4);
    assert!(!s.any_throttled);
}

#[test]
fn registers_hold_the_request() {
    let w = set_pstate_ratio(0x28);
    assert_eq!(w.register, msr::IA32_PERF_CTL);
    assert_eq!(w.value, 0x2800);
    assert_eq!(pstate_ratio_of(0x2800), 0x28);
    let h = set_hwp_request(1, 2, 3, 4);
    assert_eq!(h.register, msr::IA32_HWP_REQUEST);
    assert_eq!(h.value, 0x0403_0201);
}
