use velociraptor_api::cli::{config_source, config_yml_file, parse_key_val, ConfigSource, ShellResult};

#[test]
fn key_ends_at_the_first_separator() {
    assert_eq!(parse_key_val("A=1"), Ok(("A".to_string(), "1".to_string())));
    assert_eq!(parse_key_val("key=a=b"), Ok(("key".to_string(), "a=b".to_string())));
    assert_eq!(parse_key_val("=v"), Ok(("".to_string(), "v".to_string())));
    assert_eq!(parse_key_val("k="), Ok(("k".to_string(), "".to_string())));
    assert_eq!(parse_key_val("ä=ö"), Ok(("ä".to_string(), "ö".to_string())));
}

#[test]
fn argument_without_separator_is_refused() {
    assert_eq!(
        parse_key_val("novalue"),
        Err("invalid KEY=value: no `=` found in `novalue`".to_string())
    );
    assert_eq!(parse_key_val(""), Err("invalid KEY=value: no `=` found in ``".to_string()));
}

#[test]
fn credential_file_of_an_instance() {
    assert_eq!(
        config_yml_file(Some("prod".to_string())),
        vec!["velociraptor".to_string(), "apiclient-prod.yaml".to_string()]
    );
    assert_eq!(
        config_yml_file(None),
        vec!["velociraptor".to_string(), "apiclient.yaml".to_string()]
    );
}

#[test]
fn credentials_come_from_the_file_or_the_instance() {
    assert!(matches!(
        config_source(Some("/etc/api.yaml"), None),
        Ok(ConfigSource::File("/etc/api.yaml"))
    ));
    match config_source(None::<&str>, Some("prod".to_string())) {
        Ok(ConfigSource::Instance(Some(name))) => assert_eq!(name, "prod"),
        _ => panic!("the instance is the source"),
    }
    assert!(matches!(config_source(None::<&str>, None), Ok(ConfigSource::Instance(None))));
}

#[test]
fn file_and_instance_together_are_refused() {
    match config_source(Some("/etc/api.yaml"), Some("prod".to_string())) {
        Err(message) => assert_eq!(message, "can't use config and instance simultaneously"),
        Ok(_) => panic!("both together are refused"),
    }
}

fn shell_row(stdout: &str, stderr: &str, returncode: i32, finished: bool) -> ShellResult {
    ShellResult { stdout: stdout.to_string(), stderr: stderr.to_string(), returncode, finished }
}

#[test]
fn shell_rows_are_joined_in_order() {
    let rows = vec![
        shell_row("one\n", "", 0, false),
        shell_row("two\n", "warning\n", 0, false),
        shell_row("", "done\n", 3, true),
    ];
    let all = ShellResult::combine(&rows);
    assert_eq!(all.stdout, "one\ntwo\n");
    assert_eq!(all.stderr, "warning\ndone\n");
    assert_eq!(all.returncode, 0);
    assert!(!all.finished);
    let none = ShellResult::combine(&Vec::new());
    assert_eq!(none.stdout, "");
    assert_eq!(none.stderr, "");
}
