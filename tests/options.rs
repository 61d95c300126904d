use miri_the_world::options::{pool_size, sandbox_args};
use miri_the_world::text::{decimal_string, same_text, split_words};
use miri_the_world::{RerunWhen, Tool};

#[test]
fn tool_names_round_trip() {
    assert_eq!(Tool::parse("miri"), Ok(Tool::Miri));
    assert_eq!(Tool::parse("asan"), Ok(Tool::Asan));
    assert_eq!(Tool::parse("valgrind"), Err("Invalid tool valgrind".to_string()));
    assert_eq!(Tool::Miri.name(), "miri");
    assert_eq!(Tool::Asan.name(), "asan");
}

#[test]
fn rerun_names_round_trip() {
    assert_eq!(RerunWhen::parse("always"), Ok(RerunWhen::Always));
    assert_eq!(RerunWhen::parse("never"), Ok(RerunWhen::Never));
    assert_eq!(RerunWhen::parse("sometimes"), Err("invalid rerun-when option"));
    assert_eq!(RerunWhen::Never.name(), "never");
    assert!(RerunWhen::Always.reruns_completed());
    assert!(!RerunWhen::Never.reruns_completed());
}

#[test]
fn image_names() {
    assert_eq!(Tool::Miri.docker_tag(), "miri-the-world");
    assert_eq!(Tool::Asan.dockerfile(), "docker/Dockerfile-asan");
}

#[test]
fn pool_size_defaults_to_one_less_than_cores() {
    assert_eq!(pool_size(None, 8), 7);
    assert_eq!(pool_size(Some(3), 8), 3);
    assert_eq!(pool_size(None, 1), 0);
}

#[test]
fn asan_sandbox_arguments() {
    let args = sandbox_args(Tool::Asan, 8, "tok");
    assert_eq!(args.len(), 21);
    assert_eq!(args[0], "run");
    assert_eq!(args[15], "RUST_BACKTRACE=1");
    assert_eq!(args[17], "TEST_END_DELIMITER=tok");
    assert_eq!(args[18], "--memory=8g");
    assert_eq!(args[19], "--memory-swap=8g");
    assert_eq!(args[20], "asan-the-world:latest");
}

#[test]
fn miri_sandbox_arguments() {
    let args = sandbox_args(Tool::Miri, 120, "x");
    assert_eq!(args.len(), 23);
    assert_eq!(args[15], "RUST_BACKTRACE=0");
    assert_eq!(args[16], "--env");
    assert_eq!(
        args[17],
        "MIRIFLAGS=-Zmiri-disable-isolation -Zmiri-ignore-leaks -Zmiri-panic-on-unsupported"
    );
    assert_eq!(args[20], "--memory=120g");
    assert_eq!(args[22], "miri-the-world:latest");
}

#[test]
fn decimal_rendering() {
    assert_eq!(decimal_string(0), "0");
    assert_eq!(decimal_string(7), "7");
    assert_eq!(decimal_string(1050), "1050");
    assert_eq!(decimal_string(usize::MAX), usize::MAX.to_string());
}

#[test]
fn text_comparison() {
    assert!(same_text("héllo", "héllo"));
    assert!(!same_text("hello", "hellO"));
    assert!(!same_text("a", "ab"));
}

#[test]
fn split_words_drops_white_space() {
    assert_eq!(split_words("  serde\n\trand==0.8.5 \u{a0}log  "), vec!["serde", "rand==0.8.5", "log"]);
    assert!(split_words("").is_empty());
    assert!(split_words(" \n ").is_empty());
    assert_eq!(split_words("one"), vec!["one"]);
}
