use zoi::parser::{parse, Config, HostItem, NO_HOST};

fn item(name: &str, host: &str, user: &str, port: &str) -> HostItem {
    HostItem {
        name: name.to_string(),
        host: host.to_string(),
        user: user.to_string(),
        port: port.to_string(),
    }
}

fn fields(item: &HostItem) -> (String, String, String, String) {
    (item.name.clone(), item.host.clone(), item.user.clone(), item.port.clone())
}

fn all_fields(config: &Config) -> Vec<(String, String, String, String)> {
    config.hosts.iter().map(fields).collect()
}

fn quad(name: &str, host: &str, user: &str, port: &str) -> (String, String, String, String) {
    (name.to_string(), host.to_string(), user.to_string(), port.to_string())
}

#[test]
fn new_item_is_empty_and_invalid() {
    let h = HostItem::new();
    assert_eq!(fields(&h), quad("", "", "", ""));
    assert!(!h.is_valid());
}

#[test]
fn item_is_valid_only_with_four_fields() {
    assert!(item("a", "h", "u", "22").is_valid());
    assert!(!item("", "h", "u", "22").is_valid());
    assert!(!item("a", "", "u", "22").is_valid());
    assert!(!item("a", "h", "", "22").is_valid());
    assert!(!item("a", "h", "u", "").is_valid());
}

#[test]
fn clone_keeps_every_field() {
    let h = item("a", "h", "u", "22");
    assert_eq!(fields(&h.clone()), quad("a", "h", "u", "22"));
}

#[test]
fn new_config_is_empty() {
    assert_eq!(Config::new().hosts.len(), 0);
}

#[test]
fn parse_empty_text() {
    assert_eq!(parse("").hosts.len(), 0);
}

#[test]
fn parse_one_block() {
    let c = parse("Host web\nhostname 10.0.0.5\nuser deploy\nport 2201\n");
    assert_eq!(all_fields(&c), vec![quad("web", "10.0.0.5", "deploy", "2201")]);
}

#[test]
fn parse_two_blocks_in_file_order() {
    let c = parse("Host a\nhostname h1\nuser u1\nport 1\nHost b\nhostname h2\nuser u2\nport 2\n");
    assert_eq!(all_fields(&c), vec![quad("a", "h1", "u1", "1"), quad("b", "h2", "u2", "2")]);
}

#[test]
fn parse_without_final_line_feed() {
    let c = parse("Host a\nhostname h\nuser u\nport 1");
    assert_eq!(all_fields(&c), vec![quad("a", "h", "u", "1")]);
}

#[test]
fn parse_drops_partial_record() {
    let c = parse("Host web\nhostname 10.0.0.5\n");
    assert_eq!(c.hosts.len(), 0);
}

#[test]
fn parse_drops_partial_record_between_valid_ones() {
    let c = parse(
        "Host a\nhostname h1\nuser u1\nport 1\nHost broken\nhostname x\nHost b\nhostname h2\nuser u2\nport 2\n",
    );
    assert_eq!(all_fields(&c), vec![quad("a", "h1", "u1", "1"), quad("b", "h2", "u2", "2")]);
}

#[test]
fn parse_fields_before_any_host_line_are_lost() {
    let c = parse("hostname h\nuser u\nport 1\n");
    assert_eq!(c.hosts.len(), 0);
    let c = parse("hostname h0\nuser u0\nport 0\nHost a\nhostname h\nuser u\nport 1\n");
    assert_eq!(all_fields(&c), vec![quad("a", "h", "u", "1")]);
}

#[test]
fn parse_defaults_are_not_applied() {
    let c = parse("Host a\nhostname h\n\nHost b\nhostname h2\nuser u\n");
    assert_eq!(c.hosts.len(), 0);
}

#[test]
fn parse_last_occurrence_of_a_keyword_wins() {
    let c = parse("Host a\nhostname h1\nuser u\nport 1\nhostname h2\nport 2\n");
    assert_eq!(all_fields(&c), vec![quad("a", "h2", "u", "2")]);
}

#[test]
fn parse_passes_over_other_lines() {
    let c = parse(
        "# comment\n\nHost a\n  hostname h\nIdentityFile ~/.ssh/id\nuser u\nuser\nuser a b\nport 1\nInclude x\n",
    );
    assert_eq!(all_fields(&c), vec![quad("a", "h", "u", "1")]);
}

#[test]
fn parse_keywords_are_case_sensitive() {
    let c = parse("host a\nhostname h\nuser u\nport 1\n");
    assert_eq!(c.hosts.len(), 0);
    let c = parse("Host a\nHostName h\nuser u\nport 1\n");
    assert_eq!(c.hosts.len(), 0);
}

#[test]
fn parse_trims_and_splits_on_any_white_space() {
    let c = parse("\t Host \t a  \r\nhostname\u{3000}h\r\n\u{a0}user\u{2003}u\u{85}\r\nport\x0b1\x0c\r\n");
    assert_eq!(all_fields(&c), vec![quad("a", "h", "u", "1")]);
}

#[test]
fn parse_keeps_characters_that_are_no_white_space() {
    let c = parse("Host é\u{200b}x\nhostname ::1\nuser ü@\nport 2\u{1f600}\n");
    assert_eq!(all_fields(&c), vec![quad("é\u{200b}x", "::1", "ü@", "2\u{1f600}")]);
}

#[test]
fn parse_duplicate_names_are_kept() {
    let c = parse("Host a\nhostname h1\nuser u\nport 1\nHost a\nhostname h2\nuser u\nport 2\n");
    assert_eq!(all_fields(&c), vec![quad("a", "h1", "u", "1"), quad("a", "h2", "u", "2")]);
}

#[test]
fn write_empty_store() {
    assert_eq!(Config::new().write(), "");
}

#[test]
fn write_exact_format() {
    let mut c = Config::new();
    c.add(item("web", "10.0.0.5", "deploy", "2201"));
    c.add(item("db", "db.local", "root", "22"));
    assert_eq!(
        c.write(),
        "Host web\nhostname 10.0.0.5\nuser deploy\nport 2201\nHost db\nhostname db.local\nuser root\nport 22\n"
    );
}

#[test]
fn write_then_parse_gives_the_store_back() {
    let mut c = Config::new();
    c.add(item("web", "10.0.0.5", "deploy", "2201"));
    c.add(item("db", "db.local", "root", "22"));
    c.add(item("web", "other", "me", "2"));
    let back = parse(&c.write());
    assert_eq!(all_fields(&back), all_fields(&c));
}

#[test]
fn write_then_parse_loses_a_name_with_a_blank() {
    let mut c = Config::new();
    c.add(item("my host", "h", "u", "1"));
    let back = parse(&c.write());
    assert_eq!(back.hosts.len(), 0);
}

#[test]
fn add_appends_whatever_it_is_given() {
    let mut c = Config::new();
    c.add(item("a", "h", "u", "1"));
    c.add(item("", "", "", ""));
    assert_eq!(all_fields(&c), vec![quad("a", "h", "u", "1"), quad("", "", "", "")]);
}

#[test]
fn position_is_the_first_match() {
    let c = Config { hosts: vec![item("a", "1", "u", "1"), item("b", "2", "u", "1"), item("b", "3", "u", "1")] };
    assert_eq!(c.position("a"), Some(0));
    assert_eq!(c.position("b"), Some(1));
    assert_eq!(c.position("c"), None);
    assert_eq!(c.position(""), None);
}

#[test]
fn get_host_copy_is_the_first_match() {
    let c = Config { hosts: vec![item("a", "1", "u", "1"), item("b", "2", "u", "1"), item("b", "3", "u", "1")] };
    assert_eq!(fields(&c.get_host_copy("b").unwrap()), quad("b", "2", "u", "1"));
    assert!(c.get_host_copy("zz").is_none());
}

#[test]
fn rename_changes_the_name_only() {
    let mut c = Config { hosts: vec![item("a", "1", "u", "1"), item("b", "2", "v", "3")] };
    assert_eq!(c.rename("b", "c"), Ok(()));
    assert_eq!(all_fields(&c), vec![quad("a", "1", "u", "1"), quad("c", "2", "v", "3")]);
}

#[test]
fn edit_changes_host_user_and_port_only() {
    let mut c = Config { hosts: vec![item("a", "1", "u", "1"), item("b", "2", "v", "3")] };
    assert_eq!(c.edit("a", &item("ignored", "9", "w", "8")), Ok(()));
    assert_eq!(all_fields(&c), vec![quad("a", "9", "w", "8"), quad("b", "2", "v", "3")]);
}

#[test]
fn delete_keeps_the_order_of_the_others() {
    let mut c = Config {
        hosts: vec![item("a", "1", "u", "1"), item("b", "2", "v", "3"), item("c", "4", "w", "5")],
    };
    assert_eq!(c.delete("b"), Ok(()));
    assert_eq!(all_fields(&c), vec![quad("a", "1", "u", "1"), quad("c", "4", "w", "5")]);
}

#[test]
fn changes_by_name_touch_the_first_of_two() {
    let two = || Config { hosts: vec![item("x", "0", "u", "1"), item("a", "1", "u", "1"), item("a", "2", "v", "3")] };
    let mut c = two();
    assert_eq!(c.rename("a", "b"), Ok(()));
    assert_eq!(all_fields(&c), vec![quad("x", "0", "u", "1"), quad("b", "1", "u", "1"), quad("a", "2", "v", "3")]);
    let mut c = two();
    assert_eq!(c.edit("a", &item("", "9", "w", "8")), Ok(()));
    assert_eq!(all_fields(&c), vec![quad("x", "0", "u", "1"), quad("a", "9", "w", "8"), quad("a", "2", "v", "3")]);
    let mut c = two();
    assert_eq!(c.delete("a"), Ok(()));
    assert_eq!(all_fields(&c), vec![quad("x", "0", "u", "1"), quad("a", "2", "v", "3")]);
}

#[test]
fn changes_on_an_empty_store_find_nothing() {
    let mut c = Config::new();
    assert_eq!(c.rename("a", "b"), Err("No host found!"));
    assert_eq!(c.edit("a", &item("a", "h", "u", "1")), Err("No host found!"));
    assert_eq!(c.delete("a"), Err("No host found!"));
    assert_eq!(c.hosts.len(), 0);
    assert_eq!(NO_HOST, "No host found!");
}

#[test]
fn a_missing_name_changes_nothing() {
    let mut c = Config { hosts: vec![item("a", "1", "u", "1"), item("b", "2", "v", "3")] };
    assert_eq!(c.rename("zz", "b"), Err("No host found!"));
    assert_eq!(c.edit("A", &item("a", "h", "u", "1")), Err("No host found!"));
    assert_eq!(c.delete("a "), Err("No host found!"));
    assert_eq!(all_fields(&c), vec![quad("a", "1", "u", "1"), quad("b", "2", "v", "3")]);
}
