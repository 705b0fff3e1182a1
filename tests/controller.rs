use zed_shared::controller::Button;

#[test]
fn test_button_update() {
    let mut button = Button::new();

    assert_eq!(button.pressed(), false, "Initial state of a button is not pressed");
    button.update(true);
    assert_eq!(button.pressed(), true);
}

#[test]
fn test_button_rising_falling_edges() {
    let mut button = Button::new();

    button.update(true);
    assert_eq!(button.rising(), true);

    button.update(true);
    assert_eq!(button.rising(), false, "Rising edge is detected only after button has been updated from 'false' to 'true'");

    button.update(true);
    assert_eq!(button.rising(), false);

    button.update(false);
    assert_eq!(button.falling(), true);

    button.update(false);
    assert_eq!(button.falling(), false);

    button.update(false);
    assert_eq!(button.falling(), false);

    button.update(true);
    assert_eq!(button.rising(), true);

    button.update(false);
    assert_eq!(button.falling(), true);
}

#[test]
fn new_button_has_no_edges() {
    let button = Button::new();
    assert!(!button.rising());
    assert!(!button.falling());
}
