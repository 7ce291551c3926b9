use zoi::command::list_command;
use zoi::listing::{blanks, log_row};
use zoi::parser::{Config, HostItem};

fn item(name: &str, host: &str, user: &str, port: &str) -> HostItem {
    HostItem {
        name: name.to_string(),
        host: host.to_string(),
        user: user.to_string(),
        port: port.to_string(),
    }
}

fn names(items: &[HostItem]) -> Vec<(String, String, String, String)> {
    items
        .iter()
        .map(|h| (h.name.clone(), h.host.clone(), h.user.clone(), h.port.clone()))
        .collect()
}

#[test]
fn blanks_are_spaces() {
    assert_eq!(blanks(0), "");
    assert_eq!(blanks(3), "   ");
}

#[test]
fn row_layout() {
    assert_eq!(log_row(0, "web", "deploy", "10.0.0.5", "2201"), "     web -> deploy@10.0.0.5:2201\n\n");
    assert_eq!(log_row(2, "a", "u", "h", "1"), "     a   -> u@h:1\n\n");
    assert_eq!(log_row(1, "", "", "", ""), "       -> @:\n\n");
}

#[test]
fn max_name_len_counts_bytes() {
    let c = Config { hosts: vec![item("ab", "h", "u", "1"), item("é", "h", "u", "1")] };
    assert_eq!(c.max_name_len(), 2);
    let c = Config { hosts: vec![item("ab", "h", "u", "1"), item("éé", "h", "u", "1"), item("abc", "h", "u", "1")] };
    assert_eq!(c.max_name_len(), 4);
    assert_eq!(Config::new().max_name_len(), 0);
}

#[test]
fn list_gives_the_hosts_in_order() {
    let c = Config { hosts: vec![item("b", "h2", "u2", "2"), item("a", "h1", "u1", "1"), item("b", "h3", "u3", "3")] };
    let listed = c.list();
    assert_eq!(names(&listed), names(&c.hosts));
    assert_eq!(listed.len(), 3);
    assert_eq!(listed[0].name, "b");
    assert_eq!(listed[1].host, "h1");
}

#[test]
fn list_twice_gives_the_same_and_leaves_the_store() {
    let c = Config { hosts: vec![item("b", "h2", "u2", "2"), item("a", "h1", "u1", "1")] };
    let before = names(&c.hosts);
    let first = c.list();
    let second = c.list();
    assert_eq!(names(&first), names(&second));
    assert_eq!(names(&c.hosts), before);
    assert_eq!(Config::new().list().len(), 0);
}

#[test]
fn log_without_marks() {
    colored::control::set_override(false);
    let c = Config { hosts: vec![item("web", "10.0.0.5", "deploy", "2201"), item("db-main", "db.local", "root", "22")] };
    assert_eq!(
        c.log(),
        "\n     web     -> deploy@10.0.0.5:2201\n\n     db-main -> root@db.local:22\n\n"
    );
    assert_eq!(c.log(), c.log());
}

#[test]
fn log_of_an_empty_store_is_an_empty_line() {
    colored::control::set_override(false);
    assert_eq!(Config::new().log(), "\n");
}

#[test]
fn log_pads_by_bytes() {
    colored::control::set_override(false);
    let c = Config { hosts: vec![item("é", "h", "u", "1"), item("abc", "h", "u", "1")] };
    assert_eq!(c.log(), "\n     é  -> u@h:1\n\n     abc -> u@h:1\n\n");
}

#[test]
fn list_command_without_marks() {
    colored::control::set_override(false);
    assert_eq!(list_command(""), "No records\n");
    assert_eq!(list_command("Host a\nhostname h\n"), "No records\n");
    assert_eq!(
        list_command("Host a\nhostname h\nuser u\nport 1\n"),
        "\n     a -> u@h:1\n\n"
    );
}
