use fate_ci::layout::{
    join_path, report_path, split_command, stream_path, test_data_path, workspace_path, Stream,
    SAMPLES_VARIABLE,
};

#[test]
fn command_line_splits_at_spaces() {
    let c = split_command("make -j4 fate");
    assert_eq!(c.program, "make");
    assert_eq!(c.args, vec!["-j4".to_string(), "fate".to_string()]);
}

#[test]
fn command_line_keeps_empty_pieces() {
    let c = split_command("a  b ");
    assert_eq!(c.program, "a");
    assert_eq!(c.args, vec!["".to_string(), "b".to_string(), "".to_string()]);
    let e = split_command("");
    assert_eq!(e.program, "");
    assert!(e.args.is_empty());
}

#[test]
fn result_store_names() {
    assert_eq!(report_path("/res", "abc"), "/res/abc");
    assert_eq!(stream_path("/res", "abc", Stream::PreRunStdout), "/res/abc.prerun.stdout");
    assert_eq!(stream_path("/res", "abc", Stream::PreRunStderr), "/res/abc.prerun.stderr");
    assert_eq!(stream_path("/res", "abc", Stream::CommandStdout), "/res/abc.cmd.stdout");
    assert_eq!(stream_path("/res", "abc", Stream::CommandStderr), "/res/abc.cmd.stderr");
}

#[test]
fn workspace_and_test_data_places() {
    assert_eq!(workspace_path("/tmp/fate", "abc"), "/tmp/fate/abc");
    assert_eq!(workspace_path("/tmp/fate", "abc"), workspace_path("/tmp/fate", "abc"));
    assert_eq!(test_data_path("/tmp/fate/abc"), "/tmp/fate/abc/tests/data/fate/");
    assert_eq!(join_path("a", "b"), "a/b");
    assert_eq!(SAMPLES_VARIABLE, "FATE_SAMPLES");
}
