//! Reading back what was written: the text form of a store holds the store.

use crate::parser::{
    all_storable, block, directive, render, spec_parse, storable, HostRecord, Reading,
};
use crate::text::{
    blank_free, free_of, lemma_lines_after_line, lemma_words_are_words, lemma_words_of_pair,
    lines, words,
};
use vstd::prelude::*;

verus! {

/// The four keywords are words, and no two of them are the same.
proof fn lemma_keywords()
    ensures
        "Host"@.len() > 0 && blank_free("Host"@),
        "hostname"@.len() > 0 && blank_free("hostname"@),
        "user"@.len() > 0 && blank_free("user"@),
        "port"@.len() > 0 && blank_free("port"@),
        "Host"@ != "hostname"@,
        "Host"@ != "user"@,
        "Host"@ != "port"@,
        "hostname"@ != "user"@,
        "hostname"@ != "port"@,
        "user"@ != "port"@,
{
    reveal_strlit("Host");
    reveal_strlit("hostname");
    reveal_strlit("user");
    reveal_strlit("port");
    assert("user"@[0] != "port"@[0]);
}

/// Reading a directive and then `rest` is taking the directive's two words
/// and then reading `rest`.
proof fn lemma_read_directive(before: Reading, key: Seq<char>, value: Seq<char>, rest: Seq<char>)
    requires
        key.len() > 0,
        value.len() > 0,
        blank_free(key),
        blank_free(value),
    ensures
        before.take_lines(lines(directive(key, value) + rest)) == before.take_line(
            seq![key, value],
        ).take_lines(lines(rest)),
{
    let line = key + seq![' '] + value;
    assert(free_of(line, '\n'));
    lemma_lines_after_line(line, rest);
    lemma_words_of_pair(key, value);
    let all = lines(directive(key, value) + rest);
    assert(all.drop_first() == lines(rest));
}

/// Reading the block of a record and then `rest` keeps what was being read,
/// makes the record the current one, and goes on with `rest`.
proof fn lemma_read_block(before: Reading, r: HostRecord, rest: Seq<char>)
    requires
        storable(r),
    ensures
        before.take_lines(lines(block(r) + rest)) == (Reading {
            done: before.kept(),
            current: r,
        }).take_lines(lines(rest)),
{
    lemma_keywords();
    let after_port = rest;
    let after_user = directive("port"@, r.port) + after_port;
    let after_host = directive("user"@, r.user) + after_user;
    let after_name = directive("hostname"@, r.host) + after_host;
    assert(block(r) + rest == directive("Host"@, r.name) + after_name);
    let named = before.take_line(seq!["Host"@, r.name]);
    let hosted = named.take_line(seq!["hostname"@, r.host]);
    let usered = hosted.take_line(seq!["user"@, r.user]);
    lemma_read_directive(before, "Host"@, r.name, after_name);
    lemma_read_directive(named, "hostname"@, r.host, after_host);
    lemma_read_directive(hosted, "user"@, r.user, after_user);
    lemma_read_directive(usered, "port"@, r.port, after_port);
}

/// Reading the text form of `store` adds the records of `store` to those kept
/// so far.
proof fn lemma_read_render(before: Reading, store: Seq<HostRecord>)
    requires
        all_storable(store),
    ensures
        before.take_lines(lines(render(store))).kept() == before.kept() + store,
    decreases store.len(),
{
    if store.len() > 0 {
        let r = store[0];
        let tail = store.drop_first();
        assert(all_storable(tail));
        lemma_read_block(before, r, render(tail));
        lemma_read_render(Reading { done: before.kept(), current: r }, tail);
    }
}

/// Writing a store and reading the text back gives the store again: the same
/// records in the same order, provided that a file can hold each of them.
pub proof fn theorem_read_back(store: Seq<HostRecord>)
    requires
        all_storable(store),
    ensures
        spec_parse(render(store)) == store,
{
    lemma_read_render(Reading::start(), store);
}

/// Whether what `reading` holds came from words only: its complete records
/// can be stored, and no field of its current record has a blank in it.
spec fn from_words(reading: Reading) -> bool {
    &&& all_storable(reading.done)
    &&& blank_free(reading.current.name)
    &&& blank_free(reading.current.host)
    &&& blank_free(reading.current.user)
    &&& blank_free(reading.current.port)
}

/// Reading lines keeps what is held made of words only.
proof fn lemma_read_words(before: Reading, text_lines: Seq<Seq<char>>)
    requires
        from_words(before),
    ensures
        from_words(before.take_lines(text_lines)),
    decreases text_lines.len(),
{
    if text_lines.len() > 0 {
        let line_words = words(text_lines[0]);
        lemma_words_are_words(text_lines[0]);
        lemma_read_words(before.take_line(line_words), text_lines.drop_first());
    }
}

/// Whatever a file holds, the records read from it can be stored: none of
/// them lacks a field, and no field has a blank in it.
pub proof fn theorem_read_is_storable(text: Seq<char>)
    ensures
        all_storable(spec_parse(text)),
{
    lemma_read_words(Reading::start(), lines(text));
}

/// Reading a file, writing what was read and reading that again gives what
/// the first reading gave.
pub proof fn theorem_read_again(text: Seq<char>)
    ensures
        spec_parse(render(spec_parse(text))) == spec_parse(text),
{
    theorem_read_is_storable(text);
    theorem_read_back(spec_parse(text));
}

} // verus!
