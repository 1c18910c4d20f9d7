use nixwrap::cli::{choose_input, usage_text, InputSource};
use nixwrap::nix::NixError;

fn args(list: &[&str]) -> Vec<String> {
    list.iter().map(|s| String::from(*s)).collect()
}

#[test]
fn no_arguments_reads_stdin() {
    match choose_input(&args(&["nixwrap"])) {
        Ok(InputSource::Stdin) => {}
        other => panic!("expected stdin, got {:?}", other),
    }
}

#[test]
fn one_argument_names_a_file() {
    match choose_input(&args(&["nixwrap", "expr.nix"])) {
        Ok(InputSource::File(p)) => assert_eq!(p, "expr.nix"),
        other => panic!("expected a file source, got {:?}", other),
    }
}

#[test]
fn inline_flag_takes_the_expression() {
    match choose_input(&args(&["nixwrap", "-e", "1 + 1"])) {
        Ok(InputSource::Inline(e)) => assert_eq!(e, "1 + 1"),
        other => panic!("expected inline text, got {:?}", other),
    }
}

#[test]
fn unknown_flag_is_an_argument_error() {
    match choose_input(&args(&["nixwrap", "-x", "1"])) {
        Err(NixError::ArgumentError { message }) => {
            assert_eq!(message, "unrecognized flag -x");
        }
        other => panic!("expected an argument error, got {:?}", other),
    }
}

#[test]
fn too_many_arguments_is_an_argument_error() {
    match choose_input(&args(&["nixwrap", "a", "b", "c"])) {
        Err(NixError::ArgumentError { message }) => {
            assert_eq!(message, "unrecognized arguments");
        }
        other => panic!("expected an argument error, got {:?}", other),
    }
}

#[test]
fn usage_mentions_both_forms() {
    let usage = usage_text();
    assert!(usage.contains("-e"));
    assert!(usage.contains("stdin"));
}
