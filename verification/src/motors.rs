use vstd::prelude::*;

verus! {

/// One of the four motors.
#[derive(Clone, Copy, Debug, PartialEq, Eq, Structural)]
pub enum MotorsMode {
    X1,
    X2,
    X3,
    X4,
}

/// The bit that stands for a motor in a [`MotorsModeCombined`].
pub open spec fn motor_bit(m: MotorsMode) -> u8 {
    match m {
        MotorsMode::X1 => 8,
        MotorsMode::X2 => 4,
        MotorsMode::X3 => 2,
        MotorsMode::X4 => 1,
    }
}

/// Whether the set of motors `mode` holds motor `m`.
pub open spec fn motor_enabled(mode: u8, m: MotorsMode) -> bool {
    mode & motor_bit(m) != 0
}

/// What an `is_x*_enabled` query answers: the motor's bit when the motor is
/// enabled, zero when it is not.
pub open spec fn enabled_weight(mode: u8, m: MotorsMode) -> u8 {
    if motor_enabled(mode, m) {
        motor_bit(m)
    } else {
        0
    }
}

impl MotorsMode {
    /// The bit of this motor: `0b1000` for X1 down to `0b0001` for X4.
    pub fn bit(self) -> (r: u8)
        ensures
            r == motor_bit(self),
    {
        match self {
            MotorsMode::X1 => 8,
            MotorsMode::X2 => 4,
            MotorsMode::X3 => 2,
            MotorsMode::X4 => 1,
        }
    }
}

/// A set of enabled motors, one bit per motor (see [`MotorsMode`]).
#[derive(Clone, Copy, Debug, PartialEq, Eq, Structural)]
pub struct MotorsModeCombined(pub u8);

proof fn lemma_mask_is_bit_or_zero(x: u8, b: u8)
    requires
        b == 8 || b == 4 || b == 2 || b == 1,
    ensures
        x & b == b || x & b == 0,
{
    assert((b == 8 || b == 4 || b == 2 || b == 1) ==> (x & b == b || x & b == 0)) by (bit_vector);
}

impl MotorsModeCombined {
    fn weight(&self, m: MotorsMode) -> (r: u8)
        ensures
            r == enabled_weight(self.0, m),
            r == self.0 & motor_bit(m),
    {
        let b = m.bit();
        proof {
            lemma_mask_is_bit_or_zero(self.0, b);
        }
        self.0 & b
    }

    /// Motor X1: `0b1000` when enabled, zero otherwise.
    pub fn is_x1_enabled(&self) -> (r: u8)
        ensures
            r == enabled_weight(self.0, MotorsMode::X1),
            r == self.0 & 8u8,
    {
        self.weight(MotorsMode::X1)
    }

    /// Motor X2: `0b0100` when enabled, zero otherwise.
    pub fn is_x2_enabled(&self) -> (r: u8)
        ensures
            r == enabled_weight(self.0, MotorsMode::X2),
            r == self.0 & 4u8,
    {
        self.weight(MotorsMode::X2)
    }

    /// Motor X3: `0b0010` when enabled, zero otherwise.
    pub fn is_x3_enabled(&self) -> (r: u8)
        ensures
            r == enabled_weight(self.0, MotorsMode::X3),
            r == self.0 & 2u8,
    {
        self.weight(MotorsMode::X3)
    }

    /// Motor X4: `0b0001` when enabled, zero otherwise.
    pub fn is_x4_enabled(&self) -> (r: u8)
        ensures
            r == enabled_weight(self.0, MotorsMode::X4),
            r == self.0 & 1u8,
    {
        self.weight(MotorsMode::X4)
    }
}

/// The motor that PWM channel `c` drives: channel 3 drives X1, channel 2 X2,
/// channel 1 X3 and channel 0 X4.
pub open spec fn channel_motor(c: int) -> MotorsMode {
    if c == 3 {
        MotorsMode::X1
    } else if c == 2 {
        MotorsMode::X2
    } else if c == 1 {
        MotorsMode::X3
    } else {
        MotorsMode::X4
    }
}

/// Position of a motor in a list of motors X1 to X4.
pub open spec fn motor_index(m: MotorsMode) -> int {
    match m {
        MotorsMode::X1 => 0,
        MotorsMode::X2 => 1,
        MotorsMode::X3 => 2,
        MotorsMode::X4 => 3,
    }
}

impl MotorsModeCombined {
    /// The duty of each PWM channel, 0 to 3, from the duty wanted for each
    /// motor, X1 to X4: a channel gets the duty of the motor it drives when
    /// that motor is enabled, and no duty when it is not.
    pub fn channel_duties(&self, motor_duties: [u16; 4]) -> (r: [u16; 4])
        ensures
            forall|c: int|
                0 <= c < 4 ==> #[trigger] r@[c] == if motor_enabled(self.0, channel_motor(c)) {
                    motor_duties@[motor_index(channel_motor(c))]
                } else {
                    0
                },
            r@[3] == (if self.0 & 8 != 0 { motor_duties@[0] } else { 0 }),
            r@[2] == (if self.0 & 4 != 0 { motor_duties@[1] } else { 0 }),
            r@[1] == (if self.0 & 2 != 0 { motor_duties@[2] } else { 0 }),
            r@[0] == (if self.0 & 1 != 0 { motor_duties@[3] } else { 0 }),
    {
        let x1 = if self.is_x1_enabled() != 0 { motor_duties[0] } else { 0 };
        let x2 = if self.is_x2_enabled() != 0 { motor_duties[1] } else { 0 };
        let x3 = if self.is_x3_enabled() != 0 { motor_duties[2] } else { 0 };
        let x4 = if self.is_x4_enabled() != 0 { motor_duties[3] } else { 0 };
        let r: [u16; 4] = [x4, x3, x2, x1];
        assert(forall|c: int| 0 <= c < 4 ==> #[trigger] r@[c] == if motor_enabled(self.0, channel_motor(c)) {
                    motor_duties@[motor_index(channel_motor(c))]
                } else {
                    0
                }) by {
            assert(r@[0] == x4 && r@[1] == x3 && r@[2] == x2 && r@[3] == x1);
        }
        r
    }
}

/// The set `0b1111` holds all four motors.
pub proof fn lemma_all_motors_mode()
    ensures
        forall|m: MotorsMode| #[trigger] motor_enabled(0b1111u8, m),
{
    assert(0b1111u8 & 8u8 != 0 && 0b1111u8 & 4u8 != 0 && 0b1111u8 & 2u8 != 0 && 0b1111u8 & 1u8 != 0)
        by (bit_vector);
}

/// The set made of one motor's bit holds that motor and no other: this is
/// the single-motor test mode.
pub proof fn lemma_single_motor_mode(m: MotorsMode)
    ensures
        forall|n: MotorsMode| #[trigger] motor_enabled(motor_bit(m), n) <==> n == m,
{
    assert(8u8 & 8u8 != 0 && 8u8 & 4u8 == 0 && 8u8 & 2u8 == 0 && 8u8 & 1u8 == 0) by (bit_vector);
    assert(4u8 & 8u8 == 0 && 4u8 & 4u8 != 0 && 4u8 & 2u8 == 0 && 4u8 & 1u8 == 0) by (bit_vector);
    assert(2u8 & 8u8 == 0 && 2u8 & 4u8 == 0 && 2u8 & 2u8 != 0 && 2u8 & 1u8 == 0) by (bit_vector);
    assert(1u8 & 8u8 == 0 && 1u8 & 4u8 == 0 && 1u8 & 2u8 == 0 && 1u8 & 1u8 != 0) by (bit_vector);
}

/// The bits of the motors: `0b1000` for X1, `0b0100` for X2, `0b0010` for X3
/// and `0b0001` for X4, and a set enables a motor exactly when it holds the
/// motor's bit.
pub proof fn lemma_motor_bits(mode: u8)
    ensures
        motor_bit(MotorsMode::X1) == 8,
        motor_bit(MotorsMode::X2) == 4,
        motor_bit(MotorsMode::X3) == 2,
        motor_bit(MotorsMode::X4) == 1,
        motor_enabled(mode, MotorsMode::X1) <==> mode & 8 != 0,
        motor_enabled(mode, MotorsMode::X2) <==> mode & 4 != 0,
        motor_enabled(mode, MotorsMode::X3) <==> mode & 2 != 0,
        motor_enabled(mode, MotorsMode::X4) <==> mode & 1 != 0,
{
}

/// The wiring of the motors to the PWM channels: channel 3 drives X1 (bit
/// `0b1000`, first of the motor duties), channel 2 X2 (bit `0b0100`, second),
/// channel 1 X3 (bit `0b0010`, third) and channel 0 X4 (bit `0b0001`, last).
pub proof fn lemma_channel_wiring()
    ensures
        motor_bit(channel_motor(3)) == 8 && motor_index(channel_motor(3)) == 0,
        motor_bit(channel_motor(2)) == 4 && motor_index(channel_motor(2)) == 1,
        motor_bit(channel_motor(1)) == 2 && motor_index(channel_motor(1)) == 2,
        motor_bit(channel_motor(0)) == 1 && motor_index(channel_motor(0)) == 3,
        forall|m: MotorsMode| #[trigger] channel_motor(3 - motor_index(m)) == m,
{
}

/// In the single-motor mode of X2, only channel 2 is driven, with the duty
/// of X2; likewise channel 3 for X1, channel 1 for X3 and channel 0 for X4.
pub proof fn lemma_single_motor_gates(c: int)
    requires
        0 <= c < 4,
    ensures
        motor_enabled(4, channel_motor(c)) <==> c == 2,
        motor_enabled(8, channel_motor(c)) <==> c == 3,
        motor_enabled(2, channel_motor(c)) <==> c == 1,
        motor_enabled(1, channel_motor(c)) <==> c == 0,
{
    assert(4u8 & 8u8 == 0 && 4u8 & 4u8 != 0 && 4u8 & 2u8 == 0 && 4u8 & 1u8 == 0) by (bit_vector);
    assert(8u8 & 8u8 != 0 && 8u8 & 4u8 == 0 && 8u8 & 2u8 == 0 && 8u8 & 1u8 == 0) by (bit_vector);
    assert(2u8 & 8u8 == 0 && 2u8 & 4u8 == 0 && 2u8 & 2u8 != 0 && 2u8 & 1u8 == 0) by (bit_vector);
    assert(1u8 & 8u8 == 0 && 1u8 & 4u8 == 0 && 1u8 & 2u8 == 0 && 1u8 & 1u8 != 0) by (bit_vector);
}

/// In the single-motor mode of `m`, the one channel that gets a duty is the
/// channel that drives `m`.
pub proof fn lemma_single_motor_channel(m: MotorsMode)
    ensures
        forall|c: int|
            0 <= c < 4 ==> (#[trigger] motor_enabled(motor_bit(m), channel_motor(c)) <==> c == 3
                - motor_index(m)),
{
    lemma_single_motor_mode(m);
    assert(motor_enabled(motor_bit(m), channel_motor(0)) == (channel_motor(0) == m));
    assert(motor_enabled(motor_bit(m), channel_motor(1)) == (channel_motor(1) == m));
    assert(motor_enabled(motor_bit(m), channel_motor(2)) == (channel_motor(2) == m));
    assert(motor_enabled(motor_bit(m), channel_motor(3)) == (channel_motor(3) == m));
}

} // verus!
