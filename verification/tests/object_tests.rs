use pratt_parser::object::Object;

#[test]
fn integers_are_always_truthy() {
    assert!(Object::Integer(5).is_thruthy());
    assert!(Object::Integer(0).is_thruthy());
    assert!(Object::Integer(-3).is_thruthy());
}

#[test]
fn booleans_are_truthy_by_value() {
    assert!(Object::Boolean(true).is_thruthy());
    assert!(!Object::Boolean(false).is_thruthy());
}

#[test]
fn null_is_never_truthy() {
    assert!(!Object::Null.is_thruthy());
}

#[test]
fn return_value_delegates_truthiness() {
    assert!(Object::ReturnValue(Box::new(Object::Integer(1))).is_thruthy());
    assert!(!Object::ReturnValue(Box::new(Object::Boolean(false))).is_thruthy());
    assert!(!Object::ReturnValue(Box::new(Object::Null)).is_thruthy());
    assert!(Object::ReturnValue(Box::new(Object::ReturnValue(Box::new(Object::Boolean(true)))))
        .is_thruthy());
}

#[test]
fn integers_render_in_decimal() {
    assert_eq!(Object::Integer(0).to_text(), "0");
    assert_eq!(Object::Integer(5).to_text(), "5");
    assert_eq!(Object::Integer(42).to_text(), "42");
    assert_eq!(Object::Integer(-12).to_text(), "-12");
    assert_eq!(Object::Integer(1000).to_text(), "1000");
    assert_eq!(
        Object::Integer(i64::MAX).to_text(),
        "9223372036854775807"
    );
    assert_eq!(
        Object::Integer(i64::MIN).to_text(),
        "-9223372036854775808"
    );
}

#[test]
fn booleans_and_null_render_as_keywords() {
    assert_eq!(Object::Boolean(true).to_text(), "true");
    assert_eq!(Object::Boolean(false).to_text(), "false");
    assert_eq!(Object::Null.to_text(), "null");
}

#[test]
fn return_value_renders_as_what_it_wraps() {
    assert_eq!(
        Object::ReturnValue(Box::new(Object::Integer(-3))).to_text(),
        "-3"
    );
    assert_eq!(
        Object::ReturnValue(Box::new(Object::Null)).to_text(),
        "null"
    );
}
