use org_roamers::cli::{
    classify_line, config_path, handle_internal, help, paths, reply_ended, server_paths,
    unknown_command_message, CliArgs, CliLine, Configuration, InternalCommand,
    UnsupportedArgument,
};

fn args(v: &[&str]) -> Vec<String> {
    v.iter().map(|s| s.to_string()).collect()
}

#[test]
fn parses_switches_and_path() {
    let a = CliArgs::parse(&args(&["--dump", "/notes", "--fs-watcher"])).unwrap();
    assert_eq!(a, CliArgs { path: "/notes".into(), dump: true, fs_watcher: true });
    let b = CliArgs::parse(&args(&["one", "two"])).unwrap();
    assert_eq!(b, CliArgs { path: "two".into(), dump: false, fs_watcher: false });
    assert_eq!(
        CliArgs::parse(&args(&[])).unwrap(),
        CliArgs { path: "".into(), dump: false, fs_watcher: false }
    );
}

#[test]
fn refuses_unknown_switches() {
    let e = CliArgs::parse(&args(&["x", "--nope", "--dump"])).unwrap_err();
    assert_eq!(e, UnsupportedArgument("--nope".into()));
    assert_eq!(e.message(), "Unsupported argument: --nope");
}

#[test]
fn url_of_the_server() {
    let c = Configuration { roam_path: "/n".into(), ip_addr: "localhost".into(), port: 5000 };
    assert_eq!(c.get_url(true), "http://localhost:5000");
    assert_eq!(c.get_url(false), "localhost:5000");
}

#[test]
fn configuration_candidates() {
    let p = paths(Some("/env.json".into()));
    assert_eq!(
        p,
        vec![
            Some("/env.json".to_string()),
            Some("~/.config/org-roamers/config.json".to_string()),
            Some("/etc/org-roamers/config.json".to_string())
        ]
    );
    assert_eq!(server_paths(None)[1], Some("./conf.json".to_string()));
    assert_eq!(config_path(&p, &vec![false, true, true]), Some("~/.config/org-roamers/config.json".to_string()));
    assert_eq!(config_path(&server_paths(None), &vec![true, false, false, false]), None);
}

#[test]
fn typed_lines() {
    assert_eq!(classify_line(".help "), CliLine::Internal(InternalCommand::Help));
    assert_eq!(classify_line(".exit"), CliLine::Internal(InternalCommand::Exit));
    assert_eq!(classify_line(".what"), CliLine::Internal(InternalCommand::Unknown(".what".into())));
    assert_eq!(classify_line("conf"), CliLine::Forward);
    assert_eq!(handle_internal("  .help\n"), InternalCommand::Help);
    assert!(reply_ended("  \n"));
    assert!(!reply_ended("x"));
    assert_eq!(unknown_command_message(".what"), ".what unsupported command.");
    assert!(help().starts_with("Supported internal commands:\n"));
}
