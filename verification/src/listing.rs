//! The store as a list for the terminal: one row for each host, the names
//! in a column of one width.

use crate::paint::{bold, green, yellow};
use crate::parser::{records, Config, HostItem, HostRecord};
use vstd::prelude::*;
use vstd::utf8::encode_utf8;

verus! {

/// How a record's name, user and host look once they are marked for the
/// terminal.
pub struct Marked {
    pub name: Seq<char>,
    pub user: Seq<char>,
    pub host: Seq<char>,
}

/// How many bytes `s` takes as UTF-8.
pub open spec fn byte_len(s: Seq<char>) -> nat {
    encode_utf8(s).len()
}

/// The greatest number of bytes that the name of a record of `store` takes;
/// `0` where the store is empty.
pub open spec fn widest_name(store: Seq<HostRecord>) -> nat
    decreases store.len(),
{
    if store.len() == 0 {
        0
    } else {
        let before = widest_name(store.drop_last());
        let last = byte_len(store.last().name);
        if last > before {
            last
        } else {
            before
        }
    }
}

/// `n` spaces.
pub open spec fn spaces(n: nat) -> Seq<char> {
    Seq::new(n, |i: int| ' ')
}

/// The row of one host: five spaces, the name, `pad` spaces that fill its
/// column, an arrow, then user, host and port as `user@host:port`, and an
/// empty line after it.
pub open spec fn row(
    pad: nat,
    name: Seq<char>,
    user: Seq<char>,
    host: Seq<char>,
    port: Seq<char>,
) -> Seq<char> {
    spaces(5) + name + spaces(pad) + " -> "@ + user + seq!['@'] + host + seq![':'] + port
        + seq!['\n', '\n']
}

/// The rows of `store`, in order, with the names in a column `width` bytes
/// wide. What is shown of name, user and host is taken from `marks`, of port
/// from the record itself.
pub open spec fn rows(width: nat, store: Seq<HostRecord>, marks: Seq<Marked>) -> Seq<char>
    decreases store.len(),
{
    if store.len() == 0 {
        Seq::empty()
    } else {
        let r = store.last();
        let m = marks.last();
        rows(width, store.drop_last(), marks.drop_last()) + row(
            (width - byte_len(r.name)) as nat,
            m.name,
            m.user,
            m.host,
            r.port,
        )
    }
}

/// The list of `store`: an empty line, then its rows, the column of names as
/// wide as the widest of them.
pub open spec fn listing(store: Seq<HostRecord>, marks: Seq<Marked>) -> Seq<char> {
    seq!['\n'] + rows(widest_name(store), store, marks)
}

/// No name of a store is wider than its widest.
pub proof fn lemma_widest_name(store: Seq<HostRecord>, i: int)
    requires
        0 <= i < store.len(),
    ensures
        byte_len(store[i].name) <= widest_name(store),
    decreases store.len(),
{
    if i < store.len() - 1 {
        lemma_widest_name(store.drop_last(), i);
    }
}

/// A string of `n` spaces.
pub fn blanks(n: usize) -> (s: String)
    ensures
        s@ == spaces(n as nat),
{
    let mut s = String::new();
    let mut i: usize = 0;
    while i < n
        invariant
            i <= n,
            s@ == spaces(i as nat),
        decreases n - i,
    {
        s.push(' ');
        i += 1;
    }
    s
}

/// The row of one host from what is to be shown of it: `name`, `user` and
/// `host` as they were marked, `port` as it is, and `pad` spaces after the
/// name.
pub fn log_row(pad: usize, name: &str, user: &str, host: &str, port: &str) -> (line: String)
    ensures
        line@ == row(pad as nat, name@, user@, host@, port@),
{
    let mut line = blanks(5);
    line.append(name);
    line.append(blanks(pad).as_str());
    line.append(" -> ");
    line.append(user);
    line.push('@');
    line.append(host);
    line.push(':');
    line.append(port);
    line.push('\n');
    line.push('\n');
    line
}

impl Config {
    /// The number of bytes of the widest name in the store.
    pub fn max_name_len(&self) -> (width: usize)
        ensures
            width == widest_name(self@),
    {
        let mut width: usize = 0;
        let mut i: usize = 0;
        while i < self.hosts.len()
            invariant
                i <= self.hosts.len(),
                width == widest_name(self@.take(i as int)),
            decreases self.hosts.len() - i,
        {
            let len = self.hosts[i].name.as_str().as_bytes().len();
            assert(self@.take(i + 1).drop_last() == self@.take(i as int));
            if len > width {
                width = len;
            }
            i += 1;
        }
        assert(self@.take(i as int) == self@);
        width
    }

    /// The hosts of the store, in its order. The store stays as it is, so
    /// that asking again gives the same.
    pub fn list(&self) -> (listed: Vec<HostItem>)
        ensures
            records(listed@) == self@,
    {
        let mut listed: Vec<HostItem> = Vec::new();
        let mut i: usize = 0;
        while i < self.hosts.len()
            invariant
                i <= self.hosts.len(),
                records(listed@) == self@.take(i as int),
            decreases self.hosts.len() - i,
        {
            let host = self.hosts[i].clone();
            assert(self@.take(i + 1) == self@.take(i as int).push(self@[i as int]));
            listed.push(host);
            i += 1;
        }
        listed
    }

    /// The store as a list for the terminal: name bold and green, user bold,
    /// host bold and yellow. The marks are made by `colored`; how they come
    /// out is left open, the rest of the list is not.
    pub fn log(&self) -> (text: String)
        ensures
            exists|marks: Seq<Marked>|
                marks.len() == self@.len() && text@ == #[trigger] listing(self@, marks),
    {
        let max_name_len = self.max_name_len();
        let mut text = String::new();
        text.push('\n');
        let ghost mut marks: Seq<Marked> = Seq::empty();
        let mut i: usize = 0;
        while i < self.hosts.len()
            invariant
                i <= self.hosts.len(),
                max_name_len == widest_name(self@),
                marks.len() == i,
                text@ == seq!['\n'] + rows(max_name_len as nat, self@.take(i as int), marks),
            decreases self.hosts.len() - i,
        {
            let host = &self.hosts[i];
            proof {
                lemma_widest_name(self@, i as int);
            }
            let pad = max_name_len - host.name.as_str().as_bytes().len();
            let name = green(bold(host.name.as_str())).to_string();
            let user = bold(host.user.as_str()).to_string();
            let address = yellow(bold(host.host.as_str())).to_string();
            let line = log_row(pad, name.as_str(), user.as_str(), address.as_str(), host.port.as_str());
            text.append(line.as_str());
            proof {
                let mark = Marked { name: name@, user: user@, host: address@ };
                assert(self@.take(i + 1).drop_last() == self@.take(i as int));
                assert(marks.push(mark).drop_last() == marks);
                marks = marks.push(mark);
            }
            i += 1;
        }
        assert(self@.take(i as int) == self@);
        assert(text@ == listing(self@, marks));
        text
    }
}

} // verus!
