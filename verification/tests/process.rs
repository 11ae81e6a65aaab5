use pi_acp::process::{
    closed_without_second_pipe, errno, serialize_arguments, Pipes, MAX_ARG_COUNT, MAX_CWD_BYTES,
    MAX_SERIALIZED_BYTES,
};

fn owned(list: &[&str]) -> Vec<String> {
    list.iter().map(|text| (*text).to_owned()).collect()
}

#[test]
fn errno_is_zero_or_a_failure() {
    assert!(errno(0, "proc_spawn").is_ok());
    assert_eq!(
        errno(44, "proc_spawn").err().unwrap(),
        "AgentOS proc_spawn failed with WASI errno 44"
    );
}

#[test]
fn arguments_are_separated_by_zero_bytes() {
    assert_eq!(
        serialize_arguments("pi", &owned(&["--mode", "rpc", "é"]), "/w").unwrap(),
        b"pi\0--mode\0rpc\0\xc3\xa9"
    );
    assert_eq!(serialize_arguments("pi", &owned(&[""]), "/w").unwrap(), b"pi\0");
    assert_eq!(serialize_arguments("", &owned(&["a"]), "/w").unwrap(), b"a");
}

#[test]
fn the_host_finds_the_arguments_again() {
    let args = owned(&["--mode", "rpc", "--session-dir", "/s"]);
    let bytes = serialize_arguments("pi", &args, "/w").unwrap();
    let found: Vec<String> = bytes
        .split(|byte| *byte == 0)
        .map(|part| String::from_utf8(part.to_vec()).unwrap())
        .collect();
    assert_eq!(found[0], "pi");
    assert_eq!(found[1..], args[..]);
}

#[test]
fn zero_bytes_inside_are_refused() {
    assert_eq!(
        serialize_arguments("pi", &owned(&["a\0b"]), "/w").err().unwrap(),
        "Pi argument contains NUL"
    );
    assert_eq!(
        serialize_arguments("pi", &owned(&[]), "/w\0").err().unwrap(),
        "Pi cwd is invalid or exceeds 4096 bytes"
    );
}

#[test]
fn too_much_is_refused() {
    let many = vec!["a".to_owned(); MAX_ARG_COUNT];
    assert_eq!(
        serialize_arguments("pi", &many, "/w").err().unwrap(),
        "argument count exceeds limit of 4096"
    );
    assert!(serialize_arguments("pi", &many[1..].to_vec(), "/w").is_ok());
    let deep = "x".repeat(MAX_CWD_BYTES);
    assert!(serialize_arguments("pi", &owned(&[]), &deep).is_ok());
    assert_eq!(
        serialize_arguments("pi", &owned(&[]), &format!("{deep}x")).err().unwrap(),
        "Pi cwd is invalid or exceeds 4096 bytes"
    );
    let long = vec!["x".repeat(MAX_SERIALIZED_BYTES - 3)];
    assert_eq!(serialize_arguments("pi", &long, "/w").unwrap().len(), MAX_SERIALIZED_BYTES);
    let longer = vec!["x".repeat(MAX_SERIALIZED_BYTES - 2)];
    assert_eq!(
        serialize_arguments("pi", &longer, "/w").err().unwrap(),
        "serialized Pi arguments exceed 1048576 bytes"
    );
}

#[test]
fn no_end_of_a_pipe_stays_open_by_mistake() {
    let pipes = Pipes { stdin_read: 3, stdin_write: 4, stdout_read: 5, stdout_write: 6 };
    assert_eq!(pipes.closed_after_start(true), vec![3, 6]);
    assert_eq!(pipes.closed_after_start(false), vec![3, 6, 4, 5]);
    assert_eq!(closed_without_second_pipe(3, 4), vec![3, 4]);
}
