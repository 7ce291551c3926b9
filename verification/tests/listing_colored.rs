use zoi::command::list_command;
use zoi::parser::{Config, HostItem};

#[test]
fn log_with_marks() {
    colored::control::set_override(true);
    let c = Config {
        hosts: vec![
            HostItem {
                name: "web".to_string(),
                host: "10.0.0.5".to_string(),
                user: "deploy".to_string(),
                port: "2201".to_string(),
            },
            HostItem {
                name: "db-main".to_string(),
                host: "db.local".to_string(),
                user: "root".to_string(),
                port: "22".to_string(),
            },
        ],
    };
    assert_eq!(
        c.log(),
        "\n     \x1b[1;32mweb\x1b[0m     -> \x1b[1mdeploy\x1b[0m@\x1b[1;33m10.0.0.5\x1b[0m:2201\n\n     \x1b[1;32mdb-main\x1b[0m -> \x1b[1mroot\x1b[0m@\x1b[1;33mdb.local\x1b[0m:22\n\n"
    );
}

#[test]
fn list_command_with_marks() {
    colored::control::set_override(true);
    assert_eq!(list_command("\n"), "No records\n");
    assert_eq!(
        list_command("Host a\nhostname h\nuser u\nport 1\n"),
        "\n     \x1b[1;32ma\x1b[0m -> \x1b[1mu\x1b[0m@\x1b[1;33mh\x1b[0m:1\n\n"
    );
}
