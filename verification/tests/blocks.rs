use aule::block::saturation::Saturation;
use aule::block::Block;
use aule::signal::SimulationState;

fn state() -> SimulationState {
    SimulationState::new(1_000, 1_000)
}

#[test]
fn saturation_limits_to_range() {
    let mut sat = Saturation::new(-5_i64, 5_i64);
    assert_eq!(sat.last_output(), None);
    assert_eq!(sat.block(10, state()), 5);
    assert_eq!(sat.last_output(), Some(5));
    assert_eq!(sat.block(-12, state()), -5);
    assert_eq!(sat.block(3, state()), 3);
    assert_eq!(sat.block(5, state()), 5);
    assert_eq!(sat.last_output(), Some(5));
    assert_eq!(sat.min(), -5);
    assert_eq!(sat.max(), 5);
}

#[test]
fn saturation_with_single_point_range() {
    let mut sat = Saturation::new(7_u8, 7_u8);
    assert_eq!(sat.block(0, state()), 7);
    assert_eq!(sat.block(255, state()), 7);
}

#[test]
fn simulation_state_accessors() {
    let s = SimulationState::new(42, 7);
    assert_eq!(s.sim_time(), 42);
    assert_eq!(s.dt(), 7);
}

#[test]
fn saturation_twice_equals_once() {
    let mut sat = Saturation::new(-3_i32, 8_i32);
    for x in [-100, -3, 0, 8, 9, 1_000] {
        let once = sat.block(x, state());
        let twice = sat.block(once, state());
        assert_eq!(once, twice);
    }
}
