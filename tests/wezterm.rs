use mato::wezterm_cli::{current_dir_vec, pane_id_vec, wrap_in_shell, wt_cli_args, WTCli, WTPane};

#[test]
fn argument_pieces() {
    assert_eq!(current_dir_vec("/tmp"), vec!["--cwd", "/tmp"]);
    assert_eq!(wrap_in_shell("zsh", "ls"), vec!["zsh", "-c", "ls"]);
    assert_eq!(pane_id_vec("3"), vec!["--pane-id", "3"]);
    assert_eq!(wt_cli_args(&vec!["x".to_string()]), vec!["wezterm", "cli", "x"]);
}

#[test]
fn split_with_options() {
    let pane = WTPane { id: "7".to_string() };
    let split = pane.split("matopdf -w doc.md").percent(10).bottom();
    assert_eq!(split.as_vec(), vec!["--percent", "10", "--bottom"]);
    assert_eq!(
        split.exec("/d", "zsh"),
        vec!["split-pane", "--pane-id", "7", "--cwd", "/d", "--percent", "10", "--bottom", "zsh", "-c", "matopdf -w doc.md"]
    );
    let other = pane.split("viewer").top_level().right();
    assert_eq!(other.as_vec(), vec!["--top-level", "--right"]);
}

#[test]
fn pane_commands() {
    let pane = WTPane { id: "2".to_string() };
    assert_eq!(pane.activate(), vec!["activate-pane", "--pane-id", "2"]);
    assert_eq!(pane.kill(), vec!["kill-pane", "--pane-id", "2"]);
    assert_eq!(WTCli::new().spawn("/d", "sh", "vi a"), vec!["spawn", "--cwd", "/d", "sh", "-c", "vi a"]);
}
