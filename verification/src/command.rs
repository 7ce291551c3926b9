//! The commands: each takes what the user asked for and the content of the
//! configuration file, and gives the content that the file is to have.

use crate::listing::{listing, Marked};
use crate::parser::{
    has_host, parse, render, spec_delete, spec_edit, spec_parse, spec_rename, HostItem,
    HostRecord, NO_HOST,
};
use crate::text::{
    free_of, lemma_split_first, lemma_split_one, lemma_split_whole, split, split_on,
};
use vstd::prelude::*;

verus! {

/// The host and the port that `address` names: what stands before and after
/// its `:` where it has exactly one, else all of it and the port `22`.
pub open spec fn spec_address(address: Seq<char>) -> (Seq<char>, Seq<char>) {
    let pair = split(address, ':');
    if pair.len() == 2 {
        (pair[0], pair[1])
    } else {
        (address, "22"@)
    }
}

/// What the expression `expr`, of the form `[user@]host[:port]`, makes of a
/// record named `name`.
///
/// The user is what stands before the only `@`, `root` where there is no `@`.
/// After the only `@`, or in the whole where there is none, stands the
/// address, which names host and port. An expression with more than one `@`
/// gives neither a user nor a host.
pub open spec fn spec_extract(name: Seq<char>, expr: Seq<char>) -> HostRecord {
    let parts = split(expr, '@');
    let user = if parts.len() == 1 {
        "root"@
    } else if parts.len() == 2 {
        parts[0]
    } else {
        Seq::empty()
    };
    let address = if parts.len() == 1 {
        expr
    } else if parts.len() == 2 {
        parts[1]
    } else {
        Seq::empty()
    };
    HostRecord { name, host: spec_address(address).0, user, port: spec_address(address).1 }
}

/// An address without `:` is a host, and the port is `22`.
pub proof fn lemma_address_without_port(host: Seq<char>)
    requires
        free_of(host, ':'),
    ensures
        spec_address(host) == (host, "22"@),
{
    lemma_split_whole(host, ':');
}

/// An address with one `:` is a host and a port.
pub proof fn lemma_address_with_port(host: Seq<char>, port: Seq<char>)
    requires
        free_of(host, ':'),
        free_of(port, ':'),
    ensures
        spec_address(host + seq![':'] + port) == (host, port),
{
    lemma_split_first(host, ':', port);
    lemma_split_whole(port, ':');
}

/// An expression without `@` is an address, and the user is `root`.
pub proof fn lemma_extract_without_user(name: Seq<char>, address: Seq<char>)
    requires
        free_of(address, '@'),
    ensures
        spec_extract(name, address) == (HostRecord {
            name,
            host: spec_address(address).0,
            user: "root"@,
            port: spec_address(address).1,
        }),
{
    lemma_split_whole(address, '@');
}

/// An expression with one `@` is a user and an address.
pub proof fn lemma_extract_with_user(name: Seq<char>, user: Seq<char>, address: Seq<char>)
    requires
        free_of(user, '@'),
        free_of(address, '@'),
    ensures
        spec_extract(name, user + seq!['@'] + address) == (HostRecord {
            name,
            host: spec_address(address).0,
            user,
            port: spec_address(address).1,
        }),
{
    lemma_split_first(user, '@', address);
    lemma_split_whole(address, '@');
}

/// An expression with two `@` or more gives no user and no host, and the
/// port `22`.
pub proof fn lemma_extract_with_two_ats(
    name: Seq<char>,
    first: Seq<char>,
    second: Seq<char>,
    rest: Seq<char>,
)
    requires
        free_of(first, '@'),
        free_of(second, '@'),
    ensures
        spec_extract(name, first + seq!['@'] + second + seq!['@'] + rest) == (HostRecord {
            name,
            host: Seq::empty(),
            user: Seq::empty(),
            port: "22"@,
        }),
{
    let expr = first + seq!['@'] + second + seq!['@'] + rest;
    assert(expr == first + seq!['@'] + (second + seq!['@'] + rest));
    lemma_split_first(first, '@', second + seq!['@'] + rest);
    lemma_split_first(second, '@', rest);
    lemma_split_one(rest, '@');
    lemma_split_whole(Seq::empty(), ':');
}

/// Sets the user, host and port of `host_item` from the expression
/// `host_string`; the name stays.
pub fn extract_host_name(host_item: &mut HostItem, host_string: String)
    ensures
        final(host_item)@ == spec_extract(old(host_item)@.name, host_string@),
{
    let mut user = "root".to_owned();
    let mut hostname = String::new();
    let mut port = "22".to_owned();

    let mut splitted = split_on(host_string.as_str(), '@');
    if splitted.len() == 1 {
        proof {
            lemma_split_one(host_string@, '@');
        }
        hostname = splitted.pop().unwrap();
    } else if splitted.len() == 2 {
        hostname = splitted.pop().unwrap();
        user = splitted.pop().unwrap();
    } else {
        user = String::new();
    }

    let mut hostname_splitted = split_on(hostname.as_str(), ':');
    if hostname_splitted.len() == 2 {
        port = hostname_splitted.pop().unwrap();
        hostname = hostname_splitted.pop().unwrap();
    }

    host_item.user = user;
    host_item.host = hostname;
    host_item.port = port;
}

/// What a command answers where no entry has the name: which command it was,
/// and why it did nothing.
pub open spec fn refusal(what: Seq<char>) -> Seq<char> {
    "Can not "@ + what + ": "@ + NO_HOST@
}

fn refuse(what: &str, why: &str) -> (message: String)
    ensures
        message@ == "Can not "@ + what@ + ": "@ + why@,
{
    let mut message = "Can not ".to_owned();
    message.append(what);
    message.append(": ");
    message.append(why);
    message
}

/// The home directory's configuration file: `/.ssh/config` under `home`, or
/// under nothing where no home directory is known.
pub fn get_path(home: Option<&str>) -> (path: String)
    ensures
        path@ == (match home {
            Some(dir) => dir@,
            None => Seq::empty(),
        }) + "/.ssh/config"@,
{
    let mut path = String::new();
    match home {
        Some(p) => path.append(p),
        None => {},
    }
    path.append("/.ssh/config");
    path
}

/// The content of a configuration file without any host.
pub fn delete_all_command() -> (written: String)
    ensures
        written@ == Seq::<char>::empty(),
        spec_parse(written@) == Seq::<HostRecord>::empty(),
{
    String::new()
}

/// Adds the host named `name` that the expression `host` describes to the
/// hosts that `content` holds.
pub fn add_command(name: &String, host: &String, content: &str) -> (written: String)
    ensures
        written@ == render(spec_parse(content@).push(spec_extract(name@, host@))),
{
    let mut new_host = HostItem::new();
    new_host.name = name.clone();
    extract_host_name(&mut new_host, host.clone());
    let mut config = parse(content);
    config.add(new_host);
    config.write()
}

/// Gives the first host named `name` in `content` the user, host and port
/// that the expression `host` describes.
pub fn edit_command(name: &String, host: &String, content: &str) -> (written: Result<
    String,
    String,
>)
    ensures
        written is Ok == has_host(spec_parse(content@), name@),
        written is Ok ==> written->Ok_0@ == render(
            spec_edit(spec_parse(content@), name@, spec_extract(Seq::empty(), host@)),
        ),
        written is Err ==> written->Err_0@ == refusal("edit"@),
{
    let mut config = parse(content);
    let mut host_item = HostItem::new();
    extract_host_name(&mut host_item, host.clone());
    match config.edit(name.as_str(), &host_item) {
        Ok(_) => Ok(config.write()),
        Err(err) => Err(refuse("edit", err)),
    }
}

/// Gives the first host named `name` in `content` the name `new_name`.
pub fn rename_command(name: &String, new_name: &String, content: &str) -> (written: Result<
    String,
    String,
>)
    ensures
        written is Ok == has_host(spec_parse(content@), name@),
        written is Ok ==> written->Ok_0@ == render(
            spec_rename(spec_parse(content@), name@, new_name@),
        ),
        written is Err ==> written->Err_0@ == refusal("rename"@),
{
    let mut config = parse(content);
    match config.rename(name.as_str(), new_name.as_str()) {
        Ok(_) => Ok(config.write()),
        Err(err) => Err(refuse("rename", err)),
    }
}

/// Removes the first host named `name` from `content`.
pub fn delete_command(name: &String, content: &str) -> (written: Result<String, String>)
    ensures
        written is Ok == has_host(spec_parse(content@), name@),
        written is Ok ==> written->Ok_0@ == render(spec_delete(spec_parse(content@), name@)),
        written is Err ==> written->Err_0@ == refusal("delete"@),
{
    let mut config = parse(content);
    match config.delete(name.as_str()) {
        Ok(_) => Ok(config.write()),
        Err(err) => Err(refuse("delete", err)),
    }
}

/// The hosts that `content` holds as a list for the terminal, or a line that
/// says that it holds none.
pub fn list_command(content: &str) -> (text: String)
    ensures
        spec_parse(content@).len() == 0 ==> text@ == "No records\n"@,
        spec_parse(content@).len() > 0 ==> exists|marks: Seq<Marked>|
            marks.len() == spec_parse(content@).len() && text@ == #[trigger] listing(
                spec_parse(content@),
                marks,
            ),
{
    let config = parse(content);
    if config.hosts.len() == 0 {
        "No records\n".to_owned()
    } else {
        config.log()
    }
}

} // verus!
