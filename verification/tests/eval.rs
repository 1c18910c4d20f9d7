use nixwrap::nix::{eval_string, NixError};

#[test]
fn eval_string_literal() {
    assert_eq!(eval_string("\"hello\"").unwrap(), "hello");
}

#[test]
fn eval_string_with_spaces() {
    assert_eq!(eval_string("\"hello world\"").unwrap(), "hello world");
}

#[test]
fn eval_one_plus_one() {
    assert_eq!(eval_string("1 + 1").unwrap(), "2");
}

#[test]
fn eval_int_literal() {
    assert_eq!(eval_string("42").unwrap(), "42");
}

#[test]
fn eval_zero() {
    assert_eq!(eval_string("0").unwrap(), "0");
}

#[test]
fn eval_longer_sum() {
    assert_eq!(eval_string("1 + 2 + 3").unwrap(), "6");
}

#[test]
fn eval_bool_literal() {
    assert_eq!(eval_string("true").unwrap(), "true");
    assert_eq!(eval_string("false").unwrap(), "false");
}

#[test]
fn eval_surrounding_whitespace() {
    assert_eq!(eval_string("  7\t\n").unwrap(), "7");
}

#[test]
fn eval_largest_literal() {
    assert_eq!(
        eval_string("999999999999999999").unwrap(),
        "999999999999999999"
    );
}

#[test]
fn eval_undefined_variable() {
    match eval_string("builtins.foo") {
        Err(NixError::ForceFailed { message }) => {
            assert!(message.contains("undefined variable"));
            assert!(message.contains("builtins.foo"));
        }
        other => panic!("expected a forcing failure, got {:?}", other),
    }
}

#[test]
fn eval_empty_input() {
    match eval_string("") {
        Err(NixError::ExprEvalFailed { message }) => {
            assert_eq!(message, "unexpected end of input");
        }
        other => panic!("expected a binding failure, got {:?}", other),
    }
}

#[test]
fn eval_blank_input() {
    match eval_string("   \n\t") {
        Err(NixError::ExprEvalFailed { message }) => {
            assert_eq!(message, "unexpected end of input");
        }
        other => panic!("expected a binding failure, got {:?}", other),
    }
}

#[test]
fn eval_trailing_garbage() {
    match eval_string("1 2") {
        Err(NixError::ExprEvalFailed { message }) => {
            assert_eq!(message, "syntax error: expected an expression");
        }
        other => panic!("expected a binding failure, got {:?}", other),
    }
}

#[test]
fn eval_unterminated_string() {
    match eval_string("\"abc") {
        Err(NixError::ExprEvalFailed { .. }) => {}
        other => panic!("expected a binding failure, got {:?}", other),
    }
}

#[test]
fn eval_oversized_literal() {
    // Nineteen digits: one more than the engine core's literal cap.
    match eval_string("9999999999999999999") {
        Err(NixError::ExprEvalFailed { .. }) => {}
        other => panic!("expected a binding failure, got {:?}", other),
    }
}

#[test]
fn eval_type_error_in_sum() {
    match eval_string("1 + true") {
        Err(NixError::ForceFailed { message }) => {
            assert_eq!(message, "cannot add non-integer values");
        }
        other => panic!("expected a forcing failure, got {:?}", other),
    }
}

#[test]
fn eval_string_in_sum_is_type_error() {
    match eval_string("\"a\" + \"b\"") {
        Err(NixError::ForceFailed { message }) => {
            assert_eq!(message, "cannot add non-integer values");
        }
        other => panic!("expected a forcing failure, got {:?}", other),
    }
}

#[test]
fn eval_overflowing_sum() {
    // Ten copies of the largest literal leave 64-bit signed range.
    let big = "999999999999999999";
    let mut expr = String::from(big);
    for _ in 0..9 {
        expr.push_str(" + ");
        expr.push_str(big);
    }
    match eval_string(&expr) {
        Err(NixError::ForceFailed { message }) => {
            assert_eq!(message, "integer overflow in addition");
        }
        other => panic!("expected a forcing failure, got {:?}", other),
    }
}

#[test]
fn error_message_accessor() {
    let err = eval_string("").unwrap_err();
    assert_eq!(err.message(), "unexpected end of input");
}
