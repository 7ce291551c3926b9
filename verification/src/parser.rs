//! Host records, the ordered store that holds them, and the store's text form.

use crate::round_trip::theorem_read_is_storable;
use crate::text::{blank_free, chars_of, find_char, lines, split_words, texts, words};
use vstd::prelude::*;

verus! {

/// What a change by name answers where no entry has the name.
pub const NO_HOST: &'static str = "No host found!";

/// What a host entry is in contracts: its four fields as character sequences.
pub struct HostRecord {
    pub name: Seq<char>,
    pub host: Seq<char>,
    pub user: Seq<char>,
    pub port: Seq<char>,
}

impl HostRecord {
    /// The record with four empty fields.
    pub open spec fn blank() -> HostRecord {
        HostRecord { name: Seq::empty(), host: Seq::empty(), user: Seq::empty(), port: Seq::empty() }
    }

    /// A record is valid when none of its fields is empty.
    pub open spec fn is_valid(self) -> bool {
        self.name.len() > 0 && self.host.len() > 0 && self.user.len() > 0 && self.port.len() > 0
    }
}

/// Whether a configuration file can hold `r`: none of its fields is empty or
/// has a blank in it.
pub open spec fn storable(r: HostRecord) -> bool {
    &&& r.is_valid()
    &&& blank_free(r.name)
    &&& blank_free(r.host)
    &&& blank_free(r.user)
    &&& blank_free(r.port)
}

/// Whether a configuration file can hold each record of `store`.
pub open spec fn all_storable(store: Seq<HostRecord>) -> bool {
    forall|i: int| 0 <= i < store.len() ==> storable(#[trigger] store[i])
}

/// One host entry: an alias and the address, user and port it stands for.
pub struct HostItem {
    pub name: String,
    pub host: String,
    pub user: String,
    pub port: String,
}

impl View for HostItem {
    type V = HostRecord;

    open spec fn view(&self) -> HostRecord {
        HostRecord { name: self.name@, host: self.host@, user: self.user@, port: self.port@ }
    }
}

impl Clone for HostItem {
    fn clone(&self) -> (copy: Self)
        ensures
            copy == *self,
    {
        HostItem {
            name: self.name.clone(),
            host: self.host.clone(),
            user: self.user.clone(),
            port: self.port.clone(),
        }
    }
}

impl HostItem {
    /// Whether none of the four fields is empty.
    pub fn is_valid(&self) -> (valid: bool)
        ensures
            valid == self@.is_valid(),
    {
        !self.name.as_str().is_empty() && !self.host.as_str().is_empty()
            && !self.user.as_str().is_empty() && !self.port.as_str().is_empty()
    }

    /// An entry with four empty fields.
    pub fn new() -> (item: Self)
        ensures
            item@ == HostRecord::blank(),
    {
        HostItem { name: String::new(), host: String::new(), user: String::new(), port: String::new() }
    }
}

/// The records that `items` stand for, in order.
pub open spec fn records(items: Seq<HostItem>) -> Seq<HostRecord> {
    Seq::new(items.len(), |i: int| items[i]@)
}

/// Whether `i` is the place of the first record of `store` named `name`.
pub open spec fn is_first_match(store: Seq<HostRecord>, name: Seq<char>, i: int) -> bool {
    &&& 0 <= i < store.len()
    &&& store[i].name == name
    &&& forall|j: int| 0 <= j < i ==> (#[trigger] store[j]).name != name
}

/// Whether some record of `store` is named `name`.
pub open spec fn has_host(store: Seq<HostRecord>, name: Seq<char>) -> bool {
    exists|i: int| 0 <= i < store.len() && (#[trigger] store[i]).name == name
}

/// The place of the first record of `store` named `name`. It means something
/// only where `has_host(store, name)`.
pub open spec fn first_match(store: Seq<HostRecord>, name: Seq<char>) -> int {
    choose|i: int| is_first_match(store, name, i)
}

/// `store` with its first record named `name` renamed to `new_name`; `store`
/// itself where it has no such record.
pub open spec fn spec_rename(store: Seq<HostRecord>, name: Seq<char>, new_name: Seq<char>) -> Seq<
    HostRecord,
> {
    if has_host(store, name) {
        let i = first_match(store, name);
        store.update(i, HostRecord { name: new_name, ..store[i] })
    } else {
        store
    }
}

/// `store` with the host, user and port of its first record named `name` taken
/// from `patch`; `store` itself where it has no such record.
pub open spec fn spec_edit(store: Seq<HostRecord>, name: Seq<char>, patch: HostRecord) -> Seq<
    HostRecord,
> {
    if has_host(store, name) {
        let i = first_match(store, name);
        store.update(i, HostRecord { name: store[i].name, ..patch })
    } else {
        store
    }
}

/// `store` without its first record named `name`, the others in their order;
/// `store` itself where it has no such record.
pub open spec fn spec_delete(store: Seq<HostRecord>, name: Seq<char>) -> Seq<HostRecord> {
    if has_host(store, name) {
        store.remove(first_match(store, name))
    } else {
        store
    }
}

/// The place that `is_first_match` holds of is the one `first_match` names,
/// and a store with such a place has the host.
pub proof fn lemma_first_match(store: Seq<HostRecord>, name: Seq<char>, i: int)
    requires
        is_first_match(store, name, i),
    ensures
        has_host(store, name),
        first_match(store, name) == i,
{
    assert(is_first_match(store, name, first_match(store, name)));
}

/// A store that has a record named `name` at `i` has a first such record, at
/// `i` or before it.
pub proof fn lemma_first_match_exists(store: Seq<HostRecord>, name: Seq<char>, i: int)
    requires
        0 <= i < store.len(),
        store[i].name == name,
    ensures
        has_host(store, name),
        is_first_match(store, name, first_match(store, name)),
        first_match(store, name) <= i,
    decreases i,
{
    if exists|j: int| 0 <= j < i && (#[trigger] store[j]).name == name {
        let j = choose|j: int| 0 <= j < i && (#[trigger] store[j]).name == name;
        lemma_first_match_exists(store, name, j);
    } else {
        lemma_first_match(store, name, i);
    }
}

/// A change by name touches the first record of that name and no other: where
/// the records at `i` and at `j`, after it, are both named `name`, renaming
/// and editing leave the one at `j` as it was, and deleting only moves it one
/// place down.
pub proof fn lemma_only_first_match_changes(
    store: Seq<HostRecord>,
    name: Seq<char>,
    new_name: Seq<char>,
    patch: HostRecord,
    i: int,
    j: int,
)
    requires
        0 <= i < j < store.len(),
        store[i].name == name,
        store[j].name == name,
    ensures
        first_match(store, name) <= i,
        spec_rename(store, name, new_name).len() == store.len(),
        spec_rename(store, name, new_name)[first_match(store, name)].name == new_name,
        spec_rename(store, name, new_name)[j] == store[j],
        spec_edit(store, name, patch).len() == store.len(),
        spec_edit(store, name, patch)[first_match(store, name)].host == patch.host,
        spec_edit(store, name, patch)[j] == store[j],
        spec_delete(store, name).len() == store.len() - 1,
        spec_delete(store, name)[j - 1] == store[j],
{
    lemma_first_match_exists(store, name, i);
}

/// An empty store has no host of any name, so that no change by name changes
/// it.
pub proof fn lemma_empty_store_has_no_host(name: Seq<char>, new_name: Seq<char>, patch: HostRecord)
    ensures
        !has_host(Seq::<HostRecord>::empty(), name),
        spec_rename(Seq::<HostRecord>::empty(), name, new_name) == Seq::<HostRecord>::empty(),
        spec_edit(Seq::<HostRecord>::empty(), name, patch) == Seq::<HostRecord>::empty(),
        spec_delete(Seq::<HostRecord>::empty(), name) == Seq::<HostRecord>::empty(),
{
}

/// How far the reading of a file has come: the records that are complete, and
/// the one that the lines read last are filling.
pub struct Reading {
    pub done: Seq<HostRecord>,
    pub current: HostRecord,
}

impl Reading {
    /// Before the first line: nothing complete, and an empty record to fill.
    pub open spec fn start() -> Reading {
        Reading { done: Seq::empty(), current: HostRecord::blank() }
    }

    /// The complete records, and after them the current one where it is valid.
    pub open spec fn kept(self) -> Seq<HostRecord> {
        if self.current.is_valid() {
            self.done.push(self.current)
        } else {
            self.done
        }
    }

    /// The reading after a line made of `line_words`. Only a line of two
    /// words whose first is `Host`, `hostname`, `user` or `port` changes
    /// anything: `Host` keeps the current record if it is valid and begins a
    /// new one under the name given, the others set a field of the current
    /// record.
    pub open spec fn take_line(self, line_words: Seq<Seq<char>>) -> Reading {
        if line_words.len() != 2 {
            self
        } else if line_words[0] == "Host"@ {
            Reading {
                done: self.kept(),
                current: HostRecord { name: line_words[1], ..HostRecord::blank() },
            }
        } else if line_words[0] == "hostname"@ {
            Reading { current: HostRecord { host: line_words[1], ..self.current }, ..self }
        } else if line_words[0] == "user"@ {
            Reading { current: HostRecord { user: line_words[1], ..self.current }, ..self }
        } else if line_words[0] == "port"@ {
            Reading { current: HostRecord { port: line_words[1], ..self.current }, ..self }
        } else {
            self
        }
    }

    /// The reading after each of `text_lines` in turn.
    pub open spec fn take_lines(self, text_lines: Seq<Seq<char>>) -> Reading
        decreases text_lines.len(),
    {
        if text_lines.len() == 0 {
            self
        } else {
            self.take_line(words(text_lines[0])).take_lines(text_lines.drop_first())
        }
    }
}

/// The records that a file with the content `text` holds.
pub open spec fn spec_parse(text: Seq<char>) -> Seq<HostRecord> {
    Reading::start().take_lines(lines(text)).kept()
}

/// One line of a configuration file: a keyword, a space, a value and a line
/// feed.
pub open spec fn directive(key: Seq<char>, value: Seq<char>) -> Seq<char> {
    key + seq![' '] + value + seq!['\n']
}

/// The four lines that stand for `r` in a configuration file.
pub open spec fn block(r: HostRecord) -> Seq<char> {
    directive("Host"@, r.name) + directive("hostname"@, r.host) + directive("user"@, r.user)
        + directive("port"@, r.port)
}

/// The content of the configuration file that holds `store`: the block of each
/// record, in order, and nothing else.
pub open spec fn render(store: Seq<HostRecord>) -> Seq<char>
    decreases store.len(),
{
    if store.len() == 0 {
        Seq::empty()
    } else {
        block(store[0]) + render(store.drop_first())
    }
}

/// A record more at the end of the store is a block more at the end of the
/// text.
pub proof fn lemma_render_push(store: Seq<HostRecord>, r: HostRecord)
    ensures
        render(store.push(r)) == render(store) + block(r),
    decreases store.len(),
{
    if store.len() == 0 {
        assert(render(store.push(r).drop_first()) == Seq::<char>::empty());
    } else {
        assert(store.push(r).drop_first() == store.drop_first().push(r));
        lemma_render_push(store.drop_first(), r);
    }
}

/// The ordered store of host entries.
pub struct Config {
    pub hosts: Vec<HostItem>,
}

impl View for Config {
    type V = Seq<HostRecord>;

    open spec fn view(&self) -> Seq<HostRecord> {
        records(self.hosts@)
    }
}

impl Config {
    /// A store without entries.
    pub fn new() -> (config: Self)
        ensures
            config@ == Seq::<HostRecord>::empty(),
    {
        Config { hosts: Vec::new() }
    }

    /// The place of the first entry named `name`, if there is one.
    pub fn position(&self, name: &str) -> (found: Option<usize>)
        ensures
            found is Some == has_host(self@, name@),
            found is Some ==> is_first_match(self@, name@, found->0 as int),
            found is Some ==> found->0 == first_match(self@, name@),
    {
        let mut i: usize = 0;
        while i < self.hosts.len()
            invariant
                i <= self.hosts.len(),
                forall|j: int| 0 <= j < i ==> (#[trigger] self@[j]).name != name@,
            decreases self.hosts.len() - i,
        {
            if self.hosts[i].name.as_str().eq(name) {
                proof {
                    lemma_first_match(self@, name@, i as int);
                }
                return Some(i);
            }
            i += 1;
        }
        None
    }

    /// A copy of the first entry named `name`, if there is one.
    pub fn get_host_copy(&self, name: &str) -> (copy: Option<HostItem>)
        ensures
            copy is Some == has_host(self@, name@),
            copy is Some ==> copy->0@ == self@[first_match(self@, name@)],
    {
        match self.position(name) {
            Some(i) => Some(self.hosts[i].clone()),
            None => None,
        }
    }

    /// Gives the first entry named `name` the name `new_name`.
    pub fn rename(&mut self, name: &str, new_name: &str) -> (done: Result<(), &'static str>)
        ensures
            done is Ok == has_host(old(self)@, name@),
            done is Err ==> done->Err_0@ == NO_HOST@,
            final(self)@ == spec_rename(old(self)@, name@, new_name@),
    {
        match self.position(name) {
            Some(i) => {
                self.hosts[i].name = new_name.to_owned();
                Ok(())
            },
            None => Err(NO_HOST),
        }
    }

    /// Gives the first entry named `name` the host, user and port of
    /// `host_item`.
    pub fn edit(&mut self, name: &str, host_item: &HostItem) -> (done: Result<(), &'static str>)
        ensures
            done is Ok == has_host(old(self)@, name@),
            done is Err ==> done->Err_0@ == NO_HOST@,
            final(self)@ == spec_edit(old(self)@, name@, host_item@),
    {
        match self.position(name) {
            Some(i) => {
                self.hosts[i].host = host_item.host.clone();
                self.hosts[i].user = host_item.user.clone();
                self.hosts[i].port = host_item.port.clone();
                Ok(())
            },
            None => Err(NO_HOST),
        }
    }

    /// Removes the first entry named `name`; the others keep their order.
    pub fn delete(&mut self, name: &str) -> (done: Result<(), &'static str>)
        ensures
            done is Ok == has_host(old(self)@, name@),
            done is Err ==> done->Err_0@ == NO_HOST@,
            final(self)@ == spec_delete(old(self)@, name@),
    {
        match self.position(name) {
            Some(i) => {
                self.hosts.remove(i);
                Ok(())
            },
            None => Err(NO_HOST),
        }
    }

    /// The content of the configuration file that holds this store. It stands
    /// for the whole file: what the file held before is not kept.
    pub fn write(&self) -> (content: String)
        ensures
            content@ == render(self@),
    {
        let mut content = String::new();
        let mut i: usize = 0;
        assert(self@.skip(0) == self@);
        while i < self.hosts.len()
            invariant
                i <= self.hosts.len(),
                content@ + render(self@.skip(i as int)) == render(self@),
            decreases self.hosts.len() - i,
        {
            let host = &self.hosts[i];
            push_directive(&mut content, "Host", host.name.as_str());
            push_directive(&mut content, "hostname", host.host.as_str());
            push_directive(&mut content, "user", host.user.as_str());
            push_directive(&mut content, "port", host.port.as_str());
            proof {
                assert(self@.skip(i as int).drop_first() == self@.skip(i + 1));
            }
            i += 1;
        }
        content
    }

    /// Appends `item` to the store, whatever it holds.
    pub fn add(&mut self, item: HostItem)
        ensures
            final(self)@ == old(self)@.push(item@),
    {
        self.hosts.push(item);
    }
}

/// Appends to `out` the line that gives `key` the value `value`.
fn push_directive(out: &mut String, key: &str, value: &str)
    ensures
        final(out)@ == old(out)@ + directive(key@, value@),
{
    out.append(key);
    out.push(' ');
    out.append(value);
    out.push('\n');
}

/// Reads the content of a configuration file into a store. Lines that are no
/// directive are passed over, and so is a record that lacks a field: each
/// record of the store is valid, and a file can hold it.
pub fn parse(content: &str) -> (config: Config)
    ensures
        config@ == spec_parse(content@),
        all_storable(config@),
{
    proof {
        theorem_read_is_storable(content@);
    }
    let chars = chars_of(content);
    let mut config = Config::new();
    let mut current_host = HostItem::new();
    let mut i: usize = 0;
    assert(chars@.skip(0) == chars@);
    while i < chars.len()
        invariant
            i <= chars.len(),
            chars@ == content@,
            spec_parse(content@) == (Reading {
                done: config@,
                current: current_host@,
            }).take_lines(lines(chars@.skip(i as int))).kept(),
        decreases chars.len() - i,
    {
        let ghost rest = chars@.skip(i as int);
        let ghost before = Reading { done: config@, current: current_host@ };
        let end = find_char(&chars, '\n', i, chars.len());
        let mut list = split_words(&chars, i, end);
        let next: usize = if end < chars.len() {
            end + 1
        } else {
            end
        };
        proof {
            let line = chars@.subrange(i as int, end as int);
            assert(rest.take(end - i) == line);
            if end < chars.len() {
                assert(rest.skip(end - i + 1) == chars@.skip(next as int));
            }
            assert(lines(rest).drop_first() == lines(chars@.skip(next as int)));
        }
        if list.len() == 2 {
            let value = list.pop().unwrap();
            let key = list.pop().unwrap();
            if key.as_str().eq("Host") {
                if current_host.is_valid() {
                    config.add(current_host);
                }
                current_host = HostItem::new();
                current_host.name = value;
            } else if key.as_str().eq("hostname") {
                current_host.host = value;
            } else if key.as_str().eq("user") {
                current_host.user = value;
            } else if key.as_str().eq("port") {
                current_host.port = value;
            }
        }
        assert((Reading { done: config@, current: current_host@ }) == before.take_line(
            words(chars@.subrange(i as int, end as int)),
        ));
        i = next;
    }
    if current_host.is_valid() {
        config.add(current_host);
    }
    config
}

} // verus!
