use vstd::prelude::*;

use crate::text;
use crate::text::{chars_of, range_equals, string_from_chars, trim_range};

verus! {

/// The server's answer to an accepted command.
pub open spec fn ok_word() -> Seq<char> {
    seq!['O', 'K']
}

/// The word that opens the server's answer to a refused command.
pub open spec fn err_word() -> Seq<char> {
    seq!['E', 'R', 'R']
}

/// The reply that accepts a command: `OK`.
pub fn ok_reply() -> (r: String)
    ensures
        r@ == ok_word(),
{
    let w = vec!['O', 'K'];
    assert(w@ =~= ok_word());
    string_from_chars(&w)
}

/// The reply that refuses a command: `ERR <detail>`.
pub fn error_reply(detail: &str) -> (r: String)
    ensures
        r@ == err_word() + seq![' '] + detail@,
{
    let mut w = vec!['E', 'R', 'R', ' '];
    let d = chars_of(detail);
    let mut k: usize = 0;
    while k < d.len()
        invariant
            k <= d@.len(),
            w@ == err_word() + seq![' '] + d@.take(k as int),
        decreases d@.len() - k,
    {
        w.push(d[k]);
        k = k + 1;
        assert(w@ =~= err_word() + seq![' '] + d@.take(k as int));
    }
    assert(d@.take(k as int) =~= detail@);
    string_from_chars(&w)
}

/// The note in front of a refused command line: `неверный формат: `
/// ("bad format").
pub open spec fn bad_format_note() -> Seq<char> {
    seq!['н', 'е', 'в', 'е', 'р', 'н', 'ы', 'й', ' ', 'ф', 'о', 'р', 'м', 'а', 'т', ':', ' ']
}

/// The reply to a command line that does not parse:
/// `ERR неверный формат: <the line, trimmed>`.
pub fn bad_command_reply(line: &str) -> (r: String)
    ensures
        r@ == err_word() + seq![' '] + bad_format_note() + text::trim(line@),
{
    let mut w = vec![
        'E', 'R', 'R', ' ', 'н', 'е', 'в', 'е', 'р', 'н', 'ы', 'й', ' ', 'ф', 'о', 'р', 'м', 'а',
        'т', ':', ' ',
    ];
    let ghost head = err_word() + seq![' '] + bad_format_note();
    assert(w@ =~= head);
    let v = chars_of(line);
    let (a, b) = trim_range(&v, 0, v.len());
    assert(v@.subrange(0, v@.len() as int) =~= line@);
    let mut k: usize = a;
    while k < b
        invariant
            a <= k <= b <= v@.len(),
            w@ == head + v@.subrange(a as int, k as int),
        decreases b - k,
    {
        w.push(v[k]);
        k = k + 1;
        assert(w@ =~= head + v@.subrange(a as int, k as int));
    }
    string_from_chars(&w)
}

/// How a client reads the server's reply line.
#[derive(Debug, PartialEq, Eq)]
pub enum ServerReply {
    /// The reply was `OK`.
    Accepted,
    /// The reply (trimmed, held here) began with `ERR`.
    Rejected(String),
    /// Any other reply, trimmed.
    Unexpected(String),
}

/// The trimmed reply line is `OK`.
pub open spec fn reply_accepted(line: Seq<char>) -> bool {
    text::trim(line) == ok_word()
}

/// The trimmed reply line is not `OK` and begins with `ERR`.
pub open spec fn reply_rejected(line: Seq<char>) -> bool {
    !reply_accepted(line) && text::starts_with(text::trim(line), err_word())
}

/// Reads the server's reply line.
pub fn classify_reply(response: &str) -> (r: ServerReply)
    ensures
        match r {
            ServerReply::Accepted => reply_accepted(response@),
            ServerReply::Rejected(t) => reply_rejected(response@) && t@ == text::trim(response@),
            ServerReply::Unexpected(t) => !reply_accepted(response@) && !reply_rejected(response@)
                && t@ == text::trim(response@),
        },
{
    let v = chars_of(response);
    let (a, b) = trim_range(&v, 0, v.len());
    assert(v@.subrange(0, v@.len() as int) =~= response@);
    let ghost t = v@.subrange(a as int, b as int);
    let ok = vec!['O', 'K'];
    assert(ok@ =~= ok_word());
    if range_equals(&v, a, b, &ok) {
        return ServerReply::Accepted;
    }
    let trimmed = String::from_str(response.substring_char(a, b));
    let err = vec!['E', 'R', 'R'];
    assert(err@ =~= err_word());
    let rejected = b - a >= 3 && range_equals(&v, a, a + 3, &err);
    proof {
        if t.len() >= 3 {
            assert(t.take(3) =~= v@.subrange(a as int, a + 3));
        }
    }
    if rejected {
        ServerReply::Rejected(trimmed)
    } else {
        ServerReply::Unexpected(trimmed)
    }
}

/// The line the server sends to accept a command is read by the client as an
/// acceptance, and every line it sends to refuse one as a refusal.
pub proof fn lemma_replies_understood(detail: Seq<char>)
    ensures
        reply_accepted(ok_word() + seq!['\n']),
        reply_rejected(err_word() + seq![' '] + detail + seq!['\n']),
{
    let ok_line = ok_word() + seq!['\n'];
    assert(text::trim_start(ok_line) == ok_line);
    assert(text::trim_end(ok_line) == text::trim_end(ok_line.drop_last()));
    assert(ok_line.drop_last() =~= ok_word());
    assert(text::trim_end(ok_word()) == ok_word());
    let line = err_word() + seq![' '] + detail + seq!['\n'];
    assert(text::trim_start(line) == line);
    text::lemma_trim_end_keeps(line, 2);
    let t = text::trim(line);
    assert(t == text::trim_end(line));
    assert(t.len() > 2);
    let n = t.len() as int;
    assert(t == line.take(n));
    assert(line.take(n)[0] == line[0]);
    assert(line.take(n)[1] == line[1]);
    assert(line.take(n)[2] == line[2]);
    assert(t.take(3) =~= err_word());
    assert(t[0] == 'E');
}

} // verus!
