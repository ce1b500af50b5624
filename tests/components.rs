use rusted_chrome::components::aiming::{Aiming, QUARTER_TURN};
use rusted_chrome::components::facing::Facing;
use rusted_chrome::input::{Buttons, PlayerInput};
use rusted_chrome::timer::Countdown;

#[test]
fn facing_is_left_and_set() {
    let mut f = Facing::default();
    assert_eq!(f, Facing::Right);
    assert!(!f.is_left());
    f.set(Facing::Left);
    assert!(f.is_left());
    assert_eq!(f.scale_x(), -1);
}

#[test]
fn facing_ignores_dead_zone() {
    let mut f = Facing::Right;
    for x in [-100, -50, 0, 50, 100] {
        f.follow_axis(x);
        assert_eq!(f, Facing::Right);
    }
    f.follow_axis(-101);
    assert_eq!(f, Facing::Left);
    for x in [-100, 0, 100] {
        f.follow_axis(x);
        assert_eq!(f, Facing::Left);
    }
    f.follow_axis(101);
    assert_eq!(f, Facing::Right);
}

#[test]
fn aim_turns_by_axis_times_speed_times_step() {
    let mut a = Aiming::default();
    a.change_aim(1000);
    // 2 rad/s for 1/60 s is 33_333 microradians, rounded toward zero.
    assert_eq!(a.angle, 33_333);
    a.change_aim(-500);
    assert_eq!(a.angle, 33_333 - 16_666);
    a.change_aim(100);
    assert_eq!(a.angle, 33_333 - 16_666);
}

#[test]
fn aim_stays_clamped() {
    let mut a = Aiming::default();
    for _ in 0..200 {
        a.change_aim(1000);
        assert!(a.min_angle <= a.angle && a.angle <= a.max_angle);
    }
    assert_eq!(a.angle, QUARTER_TURN);
    for _ in 0..400 {
        a.change_aim(-1000);
        assert!(a.min_angle <= a.angle && a.angle <= a.max_angle);
    }
    assert_eq!(a.angle, -QUARTER_TURN);
    let mut wild = Aiming { angle: 0, max_angle: 10, min_angle: -10 };
    wild.change_aim(i32::MAX);
    assert_eq!(wild.angle, 10);
}

#[test]
fn countdown_ticks_to_zero_and_resets() {
    let mut c = Countdown::new(2);
    assert!(!c.finished());
    c.tick();
    assert_eq!(c.remaining, 1);
    c.tick();
    assert!(c.finished());
    c.tick();
    assert_eq!(c.remaining, 0);
    c.reset();
    assert_eq!(c.remaining, 2);
    assert!(!c.finished());
}

#[test]
fn fresh_countdown_is_not_finished_whatever_its_length() {
    let mut z = Countdown::new(0);
    assert!(!z.finished());
    z.advance(0);
    assert!(z.finished());
    let mut two = Countdown::new(2);
    two.advance(0);
    assert!(!two.finished());
    assert_eq!(two.remaining, 2);
}

#[test]
fn input_record_round_trip() {
    for x in 0u8..=255 {
        let b = Buttons::decode(x);
        assert_eq!(b.encode(), x & 63);
        assert_eq!(Buttons::decode(b.encode()), b);
    }
}

#[test]
fn input_record_layout() {
    let b = Buttons { right: true, left: false, up: false, down: true, jump: true, shoot: false };
    assert_eq!(b.encode(), 1 | 8 | 16);
    let s = Buttons { right: false, left: true, up: true, down: false, jump: false, shoot: true };
    assert_eq!(s.encode(), 2 | 4 | 32);
}

#[test]
fn buttons_give_axes() {
    let b = Buttons { right: true, left: false, up: false, down: true, jump: true, shoot: false };
    assert_eq!(
        b.to_input(),
        PlayerInput { axis_x: 1000, axis_y: -1000, jump: true, shoot: false }
    );
    let both = Buttons { right: true, left: true, up: false, down: false, jump: false, shoot: true };
    assert_eq!(both.to_input().axis_x, 0);
    assert!(both.to_input().shoot);
}
