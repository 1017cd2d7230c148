use bowling::{Round, Throw};

#[test]
fn main_role_pins_once() {
    assert_eq!(Round::new().role(0).unwrap().last_throw(), Some(Throw::Miss));
    assert_eq!(Round::new().role(1).unwrap().last_throw(), Some(Throw::Hit(1)));
    assert_eq!(Round::new().role(5).unwrap().last_throw(), Some(Throw::Hit(5)));
    assert_eq!(Round::new().role(10).unwrap().last_throw(), Some(Throw::Strike));
}

#[test]
fn main_role_pins_twice() {
    let round = Round::new().role(1).unwrap();
    assert_eq!(round.clone().role(2).unwrap().last_throw(), Some(Throw::Hit(2)));
    assert_eq!(round.clone().role(0).unwrap().last_throw(), Some(Throw::Miss));
    assert_eq!(round.clone().role(9).unwrap().last_throw(), Some(Throw::Spare(9)));
    assert_eq!(round.clone().role(10).is_err(), true);
}

#[test]
fn main_display_empty_round() {
    assert_eq!(Round::new().render(), "[]");
}

#[test]
fn main_display_fist_round() {
    assert_eq!(Round::new().role(2).unwrap().render(), "[2, ?]");
}

#[test]
fn main_display_throw() {
    assert_eq!(Throw::Miss.render(), "-");
    assert_eq!(Throw::Strike.render(), "X");
    assert_eq!(Throw::Hit(2).render(), "2");
    assert_eq!(Throw::Spare(2).render(), "/");
}

#[test]
fn main_display_completed_rounds() {
    assert_eq!(Round::new().role(1).unwrap().role(2).unwrap().render(), "[1, 2]");
    assert_eq!(Round::new().role(0).unwrap().role(10).unwrap().render(), "[-, /]");
    assert_eq!(Round::new().role(10).unwrap().render(), "[X]");
    assert_eq!(Round::new().role(2).unwrap().role(8).unwrap().render(), "[2, /]");
}

#[test]
fn main_role_three_times() {
    assert_eq!(
        Round::new().role(1).unwrap().role(2).unwrap().role(3).is_err(),
        true
    );
}

#[test]
fn main_role_not_more_then_ten() {
    assert_eq!(Round::new().role(11).is_err(), true);
}

#[test]
fn mod_role_pins_once() {
    assert_eq!(Round::new().role(0).unwrap().last_throw(), Some(Throw::Miss));
    assert_eq!(Round::new().role(1).unwrap().last_throw(), Some(Throw::Hit(1)));
    assert_eq!(Round::new().role(5).unwrap().last_throw(), Some(Throw::Hit(5)));
    assert_eq!(Round::new().role(10).unwrap().last_throw(), Some(Throw::Strike));
}

#[test]
fn mod_role_pins_twice() {
    let round = Round::new().role(1).unwrap();
    assert_eq!(round.clone().role(2).unwrap().last_throw(), Some(Throw::Hit(2)));
    assert_eq!(round.clone().role(0).unwrap().last_throw(), Some(Throw::Miss));
    assert_eq!(round.clone().role(9).unwrap().last_throw(), Some(Throw::Spare(9)));
    assert_eq!(round.clone().role(10).is_err(), true);
}

#[test]
fn mod_display_empty_round() {
    assert_eq!(Round::new().render(), "[]");
}

#[test]
fn mod_display_fist_round() {
    assert_eq!(Round::new().role(2).unwrap().render(), "[2, ?]");
}

#[test]
fn mod_display_completed_rounds() {
    assert_eq!(Round::new().role(1).unwrap().role(2).unwrap().render(), "[1, 2]");
    assert_eq!(Round::new().role(0).unwrap().role(10).unwrap().render(), "[-, /]");
    assert_eq!(Round::new().role(10).unwrap().render(), "[X]");
    assert_eq!(Round::new().role(2).unwrap().role(8).unwrap().render(), "[2, /]");
}

#[test]
fn mod_role_three_times() {
    assert_eq!(
        Round::new().role(1).unwrap().role(2).unwrap().role(3).is_err(),
        true
    );
}

#[test]
fn mod_role_not_more_then_ten() {
    assert_eq!(Round::new().role(11).is_err(), true);
}

#[test]
fn throw_display_throw() {
    assert_eq!(Throw::Miss.render(), "-");
    assert_eq!(Throw::Strike.render(), "X");
    assert_eq!(Throw::Hit(2).render(), "2");
    assert_eq!(Throw::Spare(2).render(), "/");
}
