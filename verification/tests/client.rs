use folden::subcommand::{GenerateSubCommand, StatusSubCommand};

fn s(v: &str) -> String {
    v.to_string()
}

#[test]
fn subcommand_names_and_aliases() {
    let generate = GenerateSubCommand {};
    assert_eq!(generate.name(), "generate");
    assert_eq!(generate.alias(), "gen");
    let status = StatusSubCommand {};
    assert_eq!(status.name(), "status");
    assert_eq!(status.alias(), "stat");
}

#[test]
fn config_path_construction() {
    // No path given: the file goes into the current directory.
    let p = GenerateSubCommand::construct_config_path(
        &s("folden_workflow"),
        None,
        &s("/home/user"),
        false,
    );
    assert_eq!(p, "/home/user/folden_workflow.toml");

    // A directory given: the file goes inside it.
    let p = GenerateSubCommand::construct_config_path(
        &s("folden_workflow"),
        Some(&s("/etc/folden")),
        &s("/home/user"),
        true,
    );
    assert_eq!(p, "/etc/folden/folden_workflow.toml");

    // A file path given: used as it is.
    let p = GenerateSubCommand::construct_config_path(
        &s("folden_workflow"),
        Some(&s("/etc/custom.toml")),
        &s("/home/user"),
        false,
    );
    assert_eq!(p, "/etc/custom.toml");
}

#[test]
fn status_target_selection() {
    // Querying all directories: the explicit argument, or nothing.
    let t = StatusSubCommand::select_status_target(true, Some(&s("/d")), &s("/cwd"));
    assert_eq!(t, "/d");
    let t = StatusSubCommand::select_status_target(true, None, &s("/cwd"));
    assert_eq!(t, "");
    // Querying one directory: the argument, or the current path.
    let t = StatusSubCommand::select_status_target(false, None, &s("/cwd"));
    assert_eq!(t, "/cwd");
    let t = StatusSubCommand::select_status_target(false, Some(&s("/d")), &s("/cwd"));
    assert_eq!(t, "/d");
}
