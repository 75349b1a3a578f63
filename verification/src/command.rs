use vstd::prelude::*;

use crate::text;
use crate::text::{chars_of, collect_items, find_char, range_equals, string_from_chars, trim_range};

verus! {

/// The word that opens a subscription command.
pub open spec fn stream_keyword() -> Seq<char> {
    seq!['S', 'T', 'R', 'E', 'A', 'M']
}

/// The scheme in front of the client's UDP address.
pub open spec fn udp_scheme() -> Seq<char> {
    seq!['u', 'd', 'p', ':', '/', '/']
}

/// What a command line means: the client's UDP address and its ticker list.
///
/// The trimmed line splits at its first two spaces into the keyword, the
/// address URL and the ticker list; the keyword must be `STREAM`, the URL must
/// start with `udp://`, and the list is comma-separated, each ticker trimmed,
/// empty ones dropped and the rest upper-cased.
pub open spec fn parse_command(line: Seq<char>) -> Option<(Seq<char>, Seq<Seq<char>>)> {
    match text::split_once(text::trim(line), ' ') {
        None => None,
        Some((word, rest)) => match text::split_once(rest, ' ') {
            None => None,
            Some((url, list)) => {
                if word == stream_keyword() && url.len() >= 6 && url.take(6) == udp_scheme() {
                    Some((url.skip(6), text::list_items(list, ',')))
                } else {
                    None
                }
            },
        },
    }
}

/// A client's request to have quotes streamed to it.
#[derive(Debug)]
pub struct StreamCommand {
    /// The client's UDP socket, where the quotes go: "127.0.0.1:34254".
    pub udp_addr: String,
    /// The tickers the client subscribed to.
    pub tickers: Vec<String>,
}

impl View for StreamCommand {
    type V = (Seq<char>, Seq<Seq<char>>);

    open spec fn view(&self) -> (Seq<char>, Seq<Seq<char>>) {
        (self.udp_addr@, text::string_views(self.tickers@))
    }
}

impl StreamCommand {
    /// Parses a command line `STREAM udp://<address> <ticker>,<ticker>,...`.
    pub fn parse(line: &str) -> (r: Option<StreamCommand>)
        ensures
            match r {
                Some(cmd) => parse_command(line@) == Some(cmd@),
                None => parse_command(line@) is None,
            },
    {
        let v = chars_of(line);
        let (a, b) = trim_range(&v, 0, v.len());
        let ghost t = v@.subrange(a as int, b as int);
        assert(v@.subrange(0, v@.len() as int) =~= line@);
        let i = match find_char(&v, a, b, ' ') {
            Some(i) => i,
            None => {
                assert forall|k: int| !text::is_first_index(t, ' ', k) by {
                    if 0 <= k < t.len() {
                        assert(t[k] == v@[a + k]);
                    }
                }
                return None;
            },
        };
        proof {
            text::lemma_split_once_at(t, ' ', i - a);
            assert(t.take(i - a) =~= v@.subrange(a as int, i as int));
            assert(t.skip(i - a + 1) =~= v@.subrange(i + 1, b as int));
        }
        let ghost rest = v@.subrange(i + 1, b as int);
        let j = match find_char(&v, i + 1, b, ' ') {
            Some(j) => j,
            None => {
                assert forall|k: int| !text::is_first_index(rest, ' ', k) by {
                    if 0 <= k < rest.len() {
                        assert(rest[k] == v@[i + 1 + k]);
                    }
                }
                return None;
            },
        };
        proof {
            text::lemma_split_once_at(rest, ' ', j - (i + 1));
            assert(rest.take(j - (i + 1)) =~= v@.subrange(i + 1, j as int));
            assert(rest.skip(j - (i + 1) + 1) =~= v@.subrange(j + 1, b as int));
        }
        let keyword = vec!['S', 'T', 'R', 'E', 'A', 'M'];
        let scheme = vec!['u', 'd', 'p', ':', '/', '/'];
        assert(keyword@ =~= stream_keyword());
        assert(scheme@ =~= udp_scheme());
        if !range_equals(&v, a, i, &keyword) {
            return None;
        }
        if !(j - (i + 1) >= 6 && range_equals(&v, i + 1, i + 7, &scheme)) {
            proof {
                let url = v@.subrange(i + 1, j as int);
                if url.len() >= 6 && url.take(6) == udp_scheme() {
                    assert(url.take(6) =~= v@.subrange(i + 1, i + 7));
                }
            }
            return None;
        }
        proof {
            let url = v@.subrange(i + 1, j as int);
            assert(url.take(6) =~= v@.subrange(i + 1, i + 7));
            assert(url.skip(6) =~= v@.subrange(i + 7, j as int));
        }
        let addr = line.substring_char(i + 7, j);
        let udp_addr = String::from_str(addr);
        let tickers = collect_items(line, &v, j + 1, b, ',');
        Some(StreamCommand { udp_addr, tickers })
    }
}

/// The host part of the address a client gives for itself.
pub open spec fn loopback_host() -> Seq<char> {
    seq!['1', '2', '7', '.', '0', '.', '0', '.', '1']
}

/// The decimal digit for `d < 10`.
pub open spec fn digit(d: nat) -> char {
    (d + 48) as char
}

/// The decimal notation of `n`, without leading zeros.
pub open spec fn decimal(n: nat) -> Seq<char>
    decreases n,
{
    if n < 10 {
        seq![digit(n)]
    } else {
        decimal(n / 10).push(digit(n % 10))
    }
}

/// The items joined with `sep` between each two of them.
pub open spec fn join(items: Seq<Seq<char>>, sep: char) -> Seq<char>
    decreases items.len(),
{
    if items.len() == 0 {
        seq![]
    } else if items.len() == 1 {
        items[0]
    } else {
        items[0] + seq![sep] + join(items.drop_first(), sep)
    }
}

/// The UDP address a client on this host gives for its port.
pub open spec fn local_udp_addr(port: nat) -> Seq<char> {
    loopback_host() + seq![':'] + decimal(port)
}

/// The command line a client sends: `STREAM udp://127.0.0.1:<port> <t1>,<t2>,...\n`.
pub open spec fn command_text(port: nat, tickers: Seq<Seq<char>>) -> Seq<char> {
    stream_keyword() + seq![' '] + udp_scheme() + local_udp_addr(port) + seq![' '] + join(
        tickers,
        ',',
    ) + seq!['\n']
}

pub proof fn lemma_join_push(items: Seq<Seq<char>>, x: Seq<char>, sep: char)
    requires
        items.len() >= 1,
    ensures
        join(items.push(x), sep) == join(items, sep) + seq![sep] + x,
    decreases items.len(),
{
    if items.len() == 1 {
        assert(items.push(x).drop_first() =~= seq![x]);
        assert(join(seq![x], sep) == x);
    } else {
        lemma_join_push(items.drop_first(), x, sep);
        assert(items.push(x).drop_first() =~= items.drop_first().push(x));
    }
}

/// Appends the decimal digits of `n`.
fn push_decimal(n: u16, out: &mut Vec<char>)
    ensures
        final(out)@ == old(out)@ + decimal(n as nat),
    decreases n,
{
    if n >= 10 {
        push_decimal(n / 10, out);
    }
    let d: u8 = (n % 10) as u8;
    let c: char = (d + 48) as char;
    assert(c == digit((n % 10) as nat));
    out.push(c);
    assert(final(out)@ =~= old(out)@ + decimal(n as nat));
}

/// Appends all characters of `w`.
fn push_all(out: &mut Vec<char>, w: &Vec<char>)
    ensures
        final(out)@ == old(out)@ + w@,
{
    let mut k: usize = 0;
    while k < w.len()
        invariant
            k <= w@.len(),
            out@ == old(out)@ + w@.take(k as int),
        decreases w@.len() - k,
    {
        out.push(w[k]);
        k = k + 1;
        assert(out@ =~= old(out)@ + w@.take(k as int));
    }
    assert(w@.take(k as int) =~= w@);
}

/// The command line that subscribes the client listening on UDP port
/// `udp_port` of this host to `tickers`.
pub fn stream_command_line(udp_port: u16, tickers: &Vec<String>) -> (r: String)
    ensures
        r@ == command_text(udp_port as nat, text::string_views(tickers@)),
{
    let mut out: Vec<char> = Vec::new();
    let head = vec![
        'S', 'T', 'R', 'E', 'A', 'M', ' ', 'u', 'd', 'p', ':', '/', '/', '1', '2', '7', '.', '0',
        '.', '0', '.', '1', ':',
    ];
    push_all(&mut out, &head);
    push_decimal(udp_port, &mut out);
    out.push(' ');
    let ghost prefix = out@;
    let ghost views = text::string_views(tickers@);
    let mut k: usize = 0;
    while k < tickers.len()
        invariant
            k <= tickers@.len(),
            views == text::string_views(tickers@),
            out@ == prefix + join(views.take(k as int), ','),
        decreases tickers@.len() - k,
    {
        if k > 0 {
            out.push(',');
        }
        let w = chars_of(tickers[k].as_str());
        push_all(&mut out, &w);
        proof {
            if k == 0 {
                assert(views.take(1) =~= seq![views[0]]);
            } else {
                lemma_join_push(views.take(k as int), views[k as int], ',');
                assert(views.take(k as int).push(views[k as int]) =~= views.take(k + 1));
            }
            assert(out@ =~= prefix + join(views.take(k + 1), ','));
        }
        k = k + 1;
    }
    out.push('\n');
    assert(views.take(k as int) =~= views);
    assert(out@ =~= command_text(udp_port as nat, views));
    string_from_chars(&out)
}

/// White space around a command line (such as the line feed it arrives
/// with) does not change what it means.
pub proof fn lemma_parse_ignores_surrounding_white_space(
    pre: Seq<char>,
    line: Seq<char>,
    post: Seq<char>,
)
    requires
        text::all_white_space(pre),
        text::all_white_space(post),
    ensures
        parse_command(pre + line + post) == parse_command(line),
{
    text::lemma_trim_surrounded(pre, line, post);
}

/// A command line built for an empty ticker list is refused: once trimmed it
/// has only one space.
pub proof fn lemma_empty_command_refused(port: u16)
    ensures
        parse_command(command_text(port as nat, Seq::<Seq<char>>::empty())) is None,
{
    let addr = local_udp_addr(port as nat);
    let line = command_text(port as nat, Seq::<Seq<char>>::empty());
    let url = udp_scheme() + addr;
    let pu = stream_keyword() + seq![' '] + url;
    assert(join(Seq::<Seq<char>>::empty(), ',') =~= Seq::<char>::empty());
    assert(line =~= pu + seq![' ', '\n']);
    assert(line[0] == 'S');
    assert(text::trim_start(line) == line);
    lemma_decimal_digits(port as nat);
    assert(pu.last() == decimal(port as nat).last());
    assert forall|i: int| line.len() - 2 <= i < line.len() implies text::white_space(
        #[trigger] line[i],
    ) by {}
    text::lemma_trim_end_take(line, line.len() - 2);
    assert(line.take(line.len() - 2) =~= pu);
    assert(text::trim(line) == pu);
    assert(text::is_first_index(pu, ' ', 6));
    text::lemma_split_once_at(pu, ' ', 6);
    assert(pu.skip(7) =~= url);
    assert forall|i: int| 0 <= i < url.len() implies url[i] != ' ' by {
        if i >= 16 {
            assert(url[i] == decimal(port as nat)[i - 16]);
        }
    }
    assert forall|k: int| !text::is_first_index(url, ' ', k) by {}
}

/// A ticker as a client sends it: not empty, no comma in it, no white space
/// around it.
pub open spec fn sendable_ticker(t: Seq<char>) -> bool {
    &&& t.len() > 0
    &&& text::trim(t) == t
    &&& !t.contains(',')
}

proof fn lemma_sendable_ends(t: Seq<char>)
    requires
        sendable_ticker(t),
    ensures
        !text::white_space(t[0]),
        !text::white_space(t.last()),
{
    if text::white_space(t[0]) {
        assert(text::trim_start(t) == text::trim_start(t.drop_first()));
        text::lemma_trim_start_suffix(t.drop_first());
        text::lemma_trim_end_prefix(text::trim_start(t));
        assert(text::trim(t).len() < t.len());
    }
    if text::white_space(t.last()) {
        text::lemma_trim_start_suffix(t);
        let u = text::trim_start(t);
        text::lemma_trim_end_prefix(u);
        if u.len() == t.len() {
            assert(u =~= t);
            assert(text::trim_end(u) == text::trim_end(u.drop_last()));
            text::lemma_trim_end_prefix(u.drop_last());
        }
    }
}

proof fn lemma_join_last(items: Seq<Seq<char>>, sep: char)
    requires
        items.len() > 0,
        items.last().len() > 0,
    ensures
        join(items, sep).len() > 0,
        join(items, sep).last() == items.last().last(),
    decreases items.len(),
{
    if items.len() > 1 {
        lemma_join_last(items.drop_first(), sep);
    }
}

proof fn lemma_decimal_digits(n: nat)
    ensures
        forall|i: int| 0 <= i < decimal(n).len() ==> '0' <= #[trigger] decimal(n)[i] <= '9',
    decreases n,
{
    if n >= 10 {
        lemma_decimal_digits(n / 10);
    }
    let d = n % 10;
    assert(digit(d) as int == d + 48);
    if n >= 10 {
        let s = decimal(n);
        assert forall|i: int| 0 <= i < s.len() implies '0' <= #[trigger] s[i] <= '9' by {
            if i < s.len() - 1 {
                assert(s[i] == decimal(n / 10)[i]);
            }
        }
    }
}

proof fn lemma_items_of_join(tickers: Seq<Seq<char>>)
    requires
        tickers.len() > 0,
        forall|k: int| 0 <= k < tickers.len() ==> sendable_ticker(#[trigger] tickers[k]),
    ensures
        text::list_items(join(tickers, ','), ',') == tickers.map_values(
            |t: Seq<char>| text::str_uppercase(t),
        ),
    decreases tickers.len(),
{
    let t0 = tickers[0];
    assert(sendable_ticker(t0));
    assert forall|i: int| 0 <= i < t0.len() implies t0[i] != ',' by {
        if t0[i] == ',' {
            assert(t0.contains(','));
        }
    }
    if tickers.len() == 1 {
        assert(join(tickers, ',') == t0);
        assert forall|k: int| !text::is_first_index(t0, ',', k) by {}
        assert(text::list_items(t0, ',') == text::list_item(t0));
        assert(tickers.map_values(|t: Seq<char>| text::str_uppercase(t)) =~= seq![
            text::str_uppercase(t0),
        ]);
    } else {
        let rest = tickers.drop_first();
        assert forall|k: int| 0 <= k < rest.len() implies sendable_ticker(#[trigger] rest[k]) by {
            assert(rest[k] == tickers[k + 1]);
        }
        lemma_items_of_join(rest);
        let j = join(tickers, ',');
        assert(j == t0 + seq![','] + join(rest, ','));
        assert(text::is_first_index(j, ',', t0.len() as int));
        text::lemma_split_once_at(j, ',', t0.len() as int);
        let k = choose|k: int| text::is_first_index(j, ',', k);
        text::lemma_first_index_unique(j, ',', k, t0.len() as int);
        assert(j.take(t0.len() as int) =~= t0);
        assert(j.skip(t0.len() as int + 1) =~= join(rest, ','));
        assert(tickers.map_values(|t: Seq<char>| text::str_uppercase(t)) =~= seq![
            text::str_uppercase(t0),
        ] + rest.map_values(|t: Seq<char>| text::str_uppercase(t)));
    }
}

/// The command line a client builds for its UDP port and a non-empty list of
/// sendable tickers is read by the server as the client's local UDP address
/// and those tickers, upper-cased.
pub proof fn lemma_command_round_trip(port: u16, tickers: Seq<Seq<char>>)
    requires
        tickers.len() > 0,
        forall|k: int| 0 <= k < tickers.len() ==> sendable_ticker(#[trigger] tickers[k]),
    ensures
        parse_command(command_text(port as nat, tickers)) == Some(
            (
                local_udp_addr(port as nat),
                tickers.map_values(|t: Seq<char>| text::str_uppercase(t)),
            ),
        ),
{
    let addr = local_udp_addr(port as nat);
    let j = join(tickers, ',');
    let line = command_text(port as nat, tickers);
    let p = stream_keyword() + seq![' '] + udp_scheme() + addr + seq![' '];
    let pj = p + j;
    assert(line =~= pj + seq!['\n']);
    let last = tickers.last();
    assert(sendable_ticker(last));
    lemma_sendable_ends(last);
    lemma_join_last(tickers, ',');
    // the whole line trimmed is everything but its line feed
    assert(line[0] == 'S');
    assert(text::trim_start(line) == line);
    assert(line[line.len() - 2] == j.last());
    assert forall|i: int| line.len() - 1 <= i < line.len() implies text::white_space(
        #[trigger] line[i],
    ) by {}
    text::lemma_trim_end_take(line, line.len() - 1);
    assert(line.take(line.len() - 1) =~= pj);
    assert(text::trim(line) == pj);
    // the first space follows the keyword
    assert(text::is_first_index(pj, ' ', 6));
    text::lemma_split_once_at(pj, ' ', 6);
    let rest = udp_scheme() + addr + seq![' '] + j;
    assert(pj.take(6) =~= stream_keyword());
    assert(pj.skip(7) =~= rest);
    // the second space follows the address
    lemma_decimal_digits(port as nat);
    let url = udp_scheme() + addr;
    assert forall|i: int| 0 <= i < url.len() implies url[i] != ' ' by {
        if i >= 16 {
            assert(url[i] == decimal(port as nat)[i - 16]);
        }
    }
    assert(text::is_first_index(rest, ' ', url.len() as int));
    text::lemma_split_once_at(rest, ' ', url.len() as int);
    assert(rest.take(url.len() as int) =~= url);
    assert(rest.skip(url.len() as int + 1) =~= j);
    assert(url.take(6) =~= udp_scheme());
    assert(url.skip(6) =~= addr);
    lemma_items_of_join(tickers);
}

} // verus!
