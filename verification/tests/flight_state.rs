use stm32_quad::motors::{MotorsMode, MotorsModeCombined};
use stm32_quad::orientation::{F32Bits, SpatialOrientation};
use stm32_quad::state::{Commands, QuadState, COMMANDS_SIZE};

fn bits(x: f32) -> F32Bits {
    F32Bits { bits: x.to_bits() }
}

fn level() -> SpatialOrientation {
    SpatialOrientation { pitch: bits(0.0), roll: bits(0.0) }
}

#[test]
fn default_state_is_grounded_with_all_motors() {
    let s = QuadState::default();
    assert_eq!(s.last_command_time, 0);
    assert_eq!(s.throttle, bits(0.0));
    assert!(!s.led);
    assert!(!s.stabilisation);
    assert_eq!(s.desired_orientation, level());
    assert_eq!(s.mode, MotorsModeCombined(0b1111));
    for t in [0u32, 1, 2, 1000, u32::MAX] {
        assert_eq!(s.throttle(t), bits(0.0));
    }
    assert_eq!(s.mode.is_x1_enabled(), 0b1000);
    assert_eq!(s.mode.is_x2_enabled(), 0b0100);
    assert_eq!(s.mode.is_x3_enabled(), 0b0010);
    assert_eq!(s.mode.is_x4_enabled(), 0b0001);
}

#[test]
fn throttle_holds_for_one_second_around_the_last_command() {
    let mut s = QuadState::default();
    s.update(Commands::Throttle(bits(0.5)), 10);
    assert_eq!(s.last_command_time, 10);
    assert_eq!(s.throttle(9), bits(0.5));
    assert_eq!(s.throttle(10), bits(0.5));
    assert_eq!(s.throttle(11), bits(0.5));
    assert_eq!(s.throttle(12), bits(0.0));
    assert_eq!(s.throttle(8), bits(0.0));
    assert_eq!(s.throttle, bits(0.5));
}

#[test]
fn throttle_cutoff_at_the_ends_of_the_clock() {
    let mut s = QuadState::default();
    s.update(Commands::Throttle(bits(0.25)), 0);
    assert_eq!(s.throttle(u32::MAX), bits(0.0));
    assert_eq!(s.throttle(1), bits(0.25));
    s.update(Commands::Led(true), u32::MAX);
    assert_eq!(s.throttle(u32::MAX - 1), bits(0.25));
    assert_eq!(s.throttle(0), bits(0.0));
}

#[test]
fn any_command_refreshes_the_heartbeat() {
    let mut s = QuadState::default();
    s.update(Commands::Throttle(bits(0.75)), 100);
    assert_eq!(s.throttle(105), bits(0.0));
    s.update(Commands::Stabilisation(true), 105);
    assert_eq!(s.throttle(105), bits(0.75));
    assert_eq!(s.throttle(106), bits(0.75));
    assert_eq!(s.throttle(107), bits(0.0));
}

#[test]
fn each_command_sets_its_own_part() {
    let mut s = QuadState::default();
    s.update(Commands::Led(true), 1);
    assert!(s.led);
    assert!(!s.stabilisation);
    assert_eq!(s.throttle, bits(0.0));
    s.update(Commands::Stabilisation(true), 2);
    assert!(s.stabilisation);
    assert!(s.led);
    s.update(Commands::Angles(bits(0.1), bits(-0.2)), 3);
    assert_eq!(s.desired_orientation, SpatialOrientation { pitch: bits(0.1), roll: bits(-0.2) });
    s.update(Commands::SwitchMode(0b0110), 4);
    assert_eq!(s.mode, MotorsModeCombined(0b0110));
    assert_eq!(s.last_command_time, 4);
    assert!(s.led && s.stabilisation);
    assert_eq!(s.throttle, bits(0.0));
    s.update(Commands::Led(false), 5);
    assert!(!s.led);
}

#[test]
fn repeated_command_changes_nothing_more() {
    let mut once = QuadState::default();
    once.update(Commands::Angles(bits(1.0), bits(2.0)), 7);
    let mut twice = once;
    twice.update(Commands::Angles(bits(1.0), bits(2.0)), 7);
    assert_eq!(once, twice);
}

#[test]
fn later_command_of_a_kind_wins() {
    let mut a = QuadState::default();
    a.update(Commands::Throttle(bits(0.9)), 3);
    a.update(Commands::Throttle(bits(0.1)), 4);
    let mut b = QuadState::default();
    b.update(Commands::Throttle(bits(0.1)), 4);
    assert_eq!(a, b);
}

#[test]
fn different_commands_commute() {
    let mut a = QuadState::default();
    a.update(Commands::Led(true), 6);
    a.update(Commands::SwitchMode(0b0001), 6);
    let mut b = QuadState::default();
    b.update(Commands::SwitchMode(0b0001), 6);
    b.update(Commands::Led(true), 6);
    assert_eq!(a, b);
}

#[test]
fn single_motor_test_mode() {
    for (m, expected) in [
        (MotorsMode::X1, [8u8, 0, 0, 0]),
        (MotorsMode::X2, [0, 4, 0, 0]),
        (MotorsMode::X3, [0, 0, 2, 0]),
        (MotorsMode::X4, [0, 0, 0, 1]),
    ] {
        let mut s = QuadState::default();
        s.update(Commands::SwitchMode(m.bit()), 1);
        let got = [
            s.mode.is_x1_enabled(),
            s.mode.is_x2_enabled(),
            s.mode.is_x3_enabled(),
            s.mode.is_x4_enabled(),
        ];
        assert_eq!(got, expected);
    }
}

#[test]
fn motor_bits() {
    assert_eq!(MotorsMode::X1.bit(), 0b1000);
    assert_eq!(MotorsMode::X2.bit(), 0b0100);
    assert_eq!(MotorsMode::X3.bit(), 0b0010);
    assert_eq!(MotorsMode::X4.bit(), 0b0001);
    let m = MotorsModeCombined(0b1010);
    assert_eq!(m.is_x1_enabled(), 8);
    assert_eq!(m.is_x2_enabled(), 0);
    assert_eq!(m.is_x3_enabled(), 2);
    assert_eq!(m.is_x4_enabled(), 0);
    let none = MotorsModeCombined(0b1111_0000);
    assert_eq!(
        [none.is_x1_enabled(), none.is_x2_enabled(), none.is_x3_enabled(), none.is_x4_enabled()],
        [0, 0, 0, 0]
    );
}

#[allow(dead_code)]
enum InMemoryCommand {
    Throttle(f32),
    Stabilisation(bool),
    Led(bool),
    Angles(f32, f32),
    SwitchMode(u8),
}

#[test]
fn commands_size_is_that_of_a_command_in_memory() {
    assert_eq!(COMMANDS_SIZE, std::mem::size_of::<InMemoryCommand>());
}

#[test]
fn channel_duties_follow_the_motor_wiring() {
    let duties = [100u16, 200, 300, 400];
    assert_eq!(MotorsModeCombined(0b1111).channel_duties(duties), [400, 300, 200, 100]);
    assert_eq!(MotorsModeCombined(0b1000).channel_duties(duties), [0, 0, 0, 100]);
    assert_eq!(MotorsModeCombined(0b0001).channel_duties(duties), [400, 0, 0, 0]);
    assert_eq!(MotorsModeCombined(0b0110).channel_duties(duties), [0, 300, 200, 0]);
    assert_eq!(MotorsModeCombined(0).channel_duties(duties), [0, 0, 0, 0]);
}
