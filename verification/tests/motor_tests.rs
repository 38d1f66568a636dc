use drive_core::motor::{Direction, MotorControl};

#[test]
fn new_state_is_disabled() {
    let m = MotorControl::new();
    assert!(!m.left_enabled);
    assert!(!m.right_enabled);
    assert!(!m.left_direction);
    assert!(!m.right_direction);
}

#[test]
fn direction_table_forward() {
    let mut m = MotorControl::new();
    m.set_direction(Direction::Forward);
    assert_eq!((m.left_direction, m.right_direction), (true, true));
}

#[test]
fn direction_table_back() {
    let mut m = MotorControl::new();
    m.set_direction(Direction::Back);
    assert_eq!((m.left_direction, m.right_direction), (false, false));
}

#[test]
fn direction_table_left() {
    let mut m = MotorControl::new();
    m.set_direction(Direction::Left);
    assert_eq!((m.left_direction, m.right_direction), (false, true));
}

#[test]
fn direction_table_right() {
    let mut m = MotorControl::new();
    m.set_direction(Direction::Right);
    assert_eq!((m.left_direction, m.right_direction), (true, false));
}

#[test]
fn set_direction_leaves_enables_alone() {
    let mut m = MotorControl::new();
    m.set_enable(true);
    m.set_direction(Direction::Left);
    assert!(m.left_enabled);
    assert!(m.right_enabled);
}

#[test]
fn set_enable_energizes_both_together() {
    let mut m = MotorControl::new();
    m.set_direction(Direction::Right);
    m.set_enable(true);
    assert!(m.left_enabled && m.right_enabled);
    assert_eq!((m.left_direction, m.right_direction), (true, false));
    m.set_enable(false);
    assert!(!m.left_enabled && !m.right_enabled);
    assert_eq!((m.left_direction, m.right_direction), (true, false));
}
