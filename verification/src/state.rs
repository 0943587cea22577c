use vstd::prelude::*;
use crate::motors::{motor_bit, motor_enabled, MotorsMode, MotorsModeCombined, lemma_all_motors_mode, lemma_single_motor_mode};
use crate::orientation::{F32Bits, SpatialOrientation};

verus! {

/// A command sent from the ground to the board.
#[derive(Clone, Copy, Debug, PartialEq, Eq, Structural)]
pub enum Commands {
    /// Base throttle of all motors, a fraction of full power.
    Throttle(F32Bits),
    /// Turn the attitude stabilisation on or off.
    Stabilisation(bool),
    /// Turn the board's LED on or off.
    Led(bool),
    /// Desired pitch and roll.
    Angles(F32Bits, F32Bits),
    /// The set of enabled motors, one bit per motor.
    SwitchMode(u8),
}

/// Size in bytes of a command held in memory (the receive buffer of the
/// board holds that many bytes).
pub const COMMANDS_SIZE: usize = 12;

/// The state of the quadcopter as the commands leave it.
#[derive(Clone, Copy, Debug, PartialEq, Eq, Structural)]
pub struct QuadState {
    /// When the last command came, in seconds.
    pub last_command_time: u32,
    /// The throttle of the last throttle command, whatever its age: fly with
    /// [`QuadState::throttle`], which cuts it when commands stop coming.
    pub throttle: F32Bits,
    pub led: bool,
    pub stabilisation: bool,
    pub desired_orientation: SpatialOrientation,
    pub mode: MotorsModeCombined,
}

/// The last command is recent enough for its throttle to stand: at most one
/// second lies between it and `now`, in either direction.
pub open spec fn heartbeat_fresh(last: u32, now: u32) -> bool {
    -1 <= last - now <= 1
}

/// The throttle a state gives at time `now`: the commanded one while the
/// heartbeat is fresh, zero after it.
pub open spec fn throttle_at(s: QuadState, now: u32) -> F32Bits {
    if heartbeat_fresh(s.last_command_time, now) {
        s.throttle
    } else {
        F32Bits { bits: 0 }
    }
}

/// Whether two commands set the same part of the state.
pub open spec fn same_kind(a: Commands, b: Commands) -> bool {
    match (a, b) {
        (Commands::Throttle(_), Commands::Throttle(_)) => true,
        (Commands::Stabilisation(_), Commands::Stabilisation(_)) => true,
        (Commands::Led(_), Commands::Led(_)) => true,
        (Commands::Angles(_, _), Commands::Angles(_, _)) => true,
        (Commands::SwitchMode(_), Commands::SwitchMode(_)) => true,
        _ => false,
    }
}

impl QuadState {
    /// The state at power-up.
    pub open spec fn initial() -> QuadState {
        QuadState {
            last_command_time: 0,
            throttle: F32Bits { bits: 0 },
            led: false,
            stabilisation: false,
            desired_orientation: SpatialOrientation {
                pitch: F32Bits { bits: 0 },
                roll: F32Bits { bits: 0 },
            },
            mode: MotorsModeCombined(0b1111),
        }
    }

    /// The state after `command` came at `time`: the command's own part is
    /// set, the time of the last command is `time`, the rest stays.
    pub open spec fn updated(self, command: Commands, time: u32) -> QuadState {
        let s = QuadState { last_command_time: time, ..self };
        match command {
            Commands::Throttle(t) => QuadState { throttle: t, ..s },
            Commands::Led(on) => QuadState { led: on, ..s },
            Commands::Stabilisation(on) => QuadState { stabilisation: on, ..s },
            Commands::Angles(p, r) => QuadState {
                desired_orientation: SpatialOrientation { pitch: p, roll: r },
                ..s
            },
            Commands::SwitchMode(m) => QuadState { mode: MotorsModeCombined(m), ..s },
        }
    }

    /// The throttle to fly with at `time`: the commanded throttle while a
    /// command came at most one second away from `time`, zero otherwise, so
    /// that the motors stop when the link to the ground is lost.
    pub fn throttle(&self, time: u32) -> (r: F32Bits)
        ensures
            r == throttle_at(*self, time),
    {
        let gap = if self.last_command_time >= time {
            self.last_command_time - time
        } else {
            time - self.last_command_time
        };
        if gap <= 1 {
            self.throttle
        } else {
            F32Bits::zero()
        }
    }

    /// Applies `command`, received at `time`.
    pub fn update(&mut self, command: Commands, time: u32)
        ensures
            *final(self) == old(self).updated(command, time),
            final(self).last_command_time == time,
            command matches Commands::Throttle(x) ==> final(self).throttle == x,
            command matches Commands::Led(b) ==> final(self).led == b,
            command matches Commands::Stabilisation(b) ==> final(self).stabilisation == b,
            command matches Commands::Angles(p, r) ==> final(self).desired_orientation.pitch == p
                && final(self).desired_orientation.roll == r,
            command matches Commands::SwitchMode(m) ==> final(self).mode.0 == m,
    {
        self.last_command_time = time;
        match command {
            Commands::Throttle(t) => self.throttle = t,
            Commands::Led(on) => self.led = on,
            Commands::Stabilisation(on) => self.stabilisation = on,
            Commands::Angles(p, r) => self.desired_orientation = SpatialOrientation { pitch: p, roll: r },
            Commands::SwitchMode(m) => self.mode.0 = m,
        }
    }
}

impl Default for QuadState {
    /// Power-up state: no throttle, LED and stabilisation off, level desired
    /// orientation, all four motors enabled.
    fn default() -> (r: Self)
        ensures
            r == QuadState::initial(),
            r.last_command_time == 0,
            r.throttle.bits == 0,
            !r.led,
            !r.stabilisation,
            r.desired_orientation.pitch.bits == 0,
            r.desired_orientation.roll.bits == 0,
            r.mode.0 == 0b1111,
    {
        QuadState {
            last_command_time: 0,
            throttle: F32Bits::zero(),
            led: false,
            stabilisation: false,
            desired_orientation: SpatialOrientation { pitch: F32Bits::zero(), roll: F32Bits::zero() },
            mode: MotorsModeCombined(0b1111),
        }
    }
}

/// The throttle that a state flies with, in terms of the time of the last
/// command: the commanded throttle when `now` is that time or one second
/// before or after it, zero at any other time.
pub proof fn lemma_heartbeat_window(s: QuadState, now: u32)
    ensures
        (now == s.last_command_time || now + 1 == s.last_command_time || now == s.last_command_time
            + 1) ==> throttle_at(s, now) == s.throttle,
        !(now == s.last_command_time || now + 1 == s.last_command_time || now
            == s.last_command_time + 1) ==> throttle_at(s, now).bits == 0,
{
}

/// Any command keeps the throttle alive: right after it, and one second
/// before or after it, the state flies with the commanded throttle.
pub proof fn lemma_command_refreshes_heartbeat(s: QuadState, c: Commands, t: u32, now: u32)
    requires
        -1 <= now - t <= 1,
    ensures
        throttle_at(s.updated(c, t), now) == s.updated(c, t).throttle,
{
}

/// A throttle command takes effect at once: at the time it came the state
/// flies with the throttle it carries.
pub proof fn lemma_throttle_command_takes_effect(s: QuadState, x: F32Bits, t: u32)
    ensures
        throttle_at(s.updated(Commands::Throttle(x), t), t) == x,
{
}

/// Without a new command, the throttle is cut from two seconds after the
/// last command on.
pub proof fn lemma_throttle_cutoff(s: QuadState, c: Commands, t: u32, now: u32)
    requires
        now - t >= 2 || t - now >= 2,
    ensures
        throttle_at(s.updated(c, t), now) == (F32Bits { bits: 0 }),
{
}

/// At power-up the motors get no throttle, whatever the time, and all four
/// motors are enabled.
pub proof fn lemma_initial_state(now: u32)
    ensures
        throttle_at(QuadState::initial(), now) == (F32Bits { bits: 0 }),
        forall|m: MotorsMode| #[trigger] motor_enabled(QuadState::initial().mode.0, m),
{
    lemma_all_motors_mode();
}

/// Switching to the mode made of one motor's bit leaves exactly that motor
/// enabled.
pub proof fn lemma_switch_to_single_motor(s: QuadState, m: MotorsMode, t: u32)
    ensures
        forall|n: MotorsMode|
            #[trigger] motor_enabled(s.updated(Commands::SwitchMode(motor_bit(m)), t).mode.0, n)
                <==> n == m,
{
    lemma_single_motor_mode(m);
}

/// Applying the same command twice at the same time changes nothing more
/// than applying it once.
pub proof fn lemma_update_idempotent(s: QuadState, c: Commands, t: u32)
    ensures
        s.updated(c, t).updated(c, t) == s.updated(c, t),
{
}

/// Of two commands of one kind, the later wins: the earlier leaves no trace.
pub proof fn lemma_later_command_wins(s: QuadState, a: Commands, ta: u32, b: Commands, tb: u32)
    requires
        same_kind(a, b),
    ensures
        s.updated(a, ta).updated(b, tb) == s.updated(b, tb),
{
}

/// Commands of different kinds received at the same time may come in
/// either order.
pub proof fn lemma_different_commands_commute(s: QuadState, a: Commands, b: Commands, t: u32)
    requires
        !same_kind(a, b),
    ensures
        s.updated(a, t).updated(b, t) == s.updated(b, t).updated(a, t),
{
}

/// What each command does, in terms of the command's argument: the time of
/// the last command becomes `t`, the part that the command names takes the
/// value it carries (false as well as true, any mode bits), and every other
/// part keeps its value.
pub proof fn lemma_command_sets_its_value(s: QuadState, c: Commands, t: u32)
    ensures
        s.updated(c, t).last_command_time == t,
        c matches Commands::Throttle(x) ==> s.updated(c, t).throttle == x,
        !(c is Throttle) ==> s.updated(c, t).throttle == s.throttle,
        c matches Commands::Led(b) ==> s.updated(c, t).led == b,
        !(c is Led) ==> s.updated(c, t).led == s.led,
        c matches Commands::Stabilisation(b) ==> s.updated(c, t).stabilisation == b,
        !(c is Stabilisation) ==> s.updated(c, t).stabilisation == s.stabilisation,
        c matches Commands::Angles(p, r) ==> s.updated(c, t).desired_orientation.pitch == p
            && s.updated(c, t).desired_orientation.roll == r,
        !(c is Angles) ==> s.updated(c, t).desired_orientation == s.desired_orientation,
        c matches Commands::SwitchMode(m) ==> s.updated(c, t).mode.0 == m,
        !(c is SwitchMode) ==> s.updated(c, t).mode == s.mode,
{
}

/// Stabilisation can be turned off again after it was turned on.
pub proof fn lemma_stabilisation_toggles(s: QuadState, t1: u32, t2: u32)
    ensures
        s.updated(Commands::Stabilisation(true), t1).stabilisation,
        !s.updated(Commands::Stabilisation(true), t1).updated(Commands::Stabilisation(false), t2).stabilisation,
{
}

/// Leaving a test mode with `SwitchMode(0b1111)` enables all four motors
/// again, whatever mode came before.
pub proof fn lemma_switch_back_to_all_motors(s: QuadState, t: u32)
    ensures
        s.updated(Commands::SwitchMode(0b1111), t).mode.0 == 0b1111,
        forall|n: MotorsMode| #[trigger] motor_enabled(s.updated(Commands::SwitchMode(0b1111), t).mode.0, n),
{
    lemma_all_motors_mode();
}

} // verus!
