use vstd::prelude::*;

use rand::rngs::StdRng;
use rand::Rng;

use crate::text::{chars_of, range_equals};

verus! {

/// The random number generator of the quote generator.
#[verifier::external_type_specification]
#[verifier::external_body]
pub struct ExStdRng(StdRng);

/// The heavily traded tickers, which get larger volumes.
pub open spec fn major_ticker(t: Seq<char>) -> bool {
    ||| t == seq!['A', 'A', 'P', 'L']
    ||| t == seq!['M', 'S', 'F', 'T']
    ||| t == seq!['N', 'V', 'D', 'A']
    ||| t == seq!['T', 'S', 'L', 'A']
    ||| t == seq!['G', 'O', 'O', 'G', 'L']
}

/// The least volume of a quote for the ticker.
pub open spec fn volume_base(t: Seq<char>) -> u32 {
    if major_ticker(t) {
        1000
    } else {
        100
    }
}

/// How many volumes a quote for the ticker can have, from the least up.
pub open spec fn volume_span(t: Seq<char>) -> u32 {
    if major_ticker(t) {
        5000
    } else {
        1000
    }
}

/// Whether the ticker is one of the heavily traded ones.
pub fn is_major_ticker(ticker: &str) -> (r: bool)
    ensures
        r == major_ticker(ticker@),
        r == seq![
            seq!['A', 'A', 'P', 'L'],
            seq!['M', 'S', 'F', 'T'],
            seq!['N', 'V', 'D', 'A'],
            seq!['T', 'S', 'L', 'A'],
            seq!['G', 'O', 'O', 'G', 'L'],
        ].contains(ticker@),
{
    let v = chars_of(ticker);
    let n = v.len();
    let aapl = vec!['A', 'A', 'P', 'L'];
    let msft = vec!['M', 'S', 'F', 'T'];
    let nvda = vec!['N', 'V', 'D', 'A'];
    let tsla = vec!['T', 'S', 'L', 'A'];
    let googl = vec!['G', 'O', 'O', 'G', 'L'];
    assert(v@.subrange(0, n as int) =~= ticker@);
    proof {
        lemma_major_names_contains(ticker@);
    }
    assert(aapl@ =~= seq!['A', 'A', 'P', 'L']);
    assert(msft@ =~= seq!['M', 'S', 'F', 'T']);
    assert(nvda@ =~= seq!['N', 'V', 'D', 'A']);
    assert(tsla@ =~= seq!['T', 'S', 'L', 'A']);
    assert(googl@ =~= seq!['G', 'O', 'O', 'G', 'L']);
    range_equals(&v, 0, n, &aapl) || range_equals(&v, 0, n, &msft) || range_equals(&v, 0, n, &nvda)
        || range_equals(&v, 0, n, &tsla) || range_equals(&v, 0, n, &googl)
}

/// How many volumes a quote for the ticker can have: 5000 for the heavily
/// traded tickers, 1000 for the others.
pub fn volume_span_of(ticker: &str) -> (r: u32)
    ensures
        r == volume_span(ticker@),
{
    if is_major_ticker(ticker) {
        5000
    } else {
        1000
    }
}

/// The volume of a quote for the ticker, given a draw below its span.
pub fn volume_from_draw(ticker: &str, draw: u32) -> (r: u32)
    requires
        draw < volume_span(ticker@),
    ensures
        r == volume_base(ticker@) + draw,
{
    if is_major_ticker(ticker) {
        1000 + draw
    } else {
        100 + draw
    }
}

/// Calls `Rng::gen_range(0..bound)`, which gives a value in the range and
/// panics on an empty one; which value comes is left to the generator.
#[verifier::external_body]
fn gen_below(rng: &mut StdRng, bound: u32) -> (r: u32)
    requires
        bound > 0,
    ensures
        r < bound,
{
    rng.gen_range(0..bound)
}

/// A random volume for a new quote of the ticker: 1000 to 5999 for the
/// heavily traded tickers, 100 to 1099 for the others.
pub fn draw_volume(ticker: &str, rng: &mut StdRng) -> (r: u32)
    ensures
        volume_base(ticker@) <= r < volume_base(ticker@) + volume_span(ticker@),
{
    let draw = gen_below(rng, volume_span_of(ticker));
    volume_from_draw(ticker, draw)
}


/// The five heavily traded tickers are AAPL, MSFT, NVDA, TSLA and GOOGL and
/// no others: every other ticker gets volumes from 100 up, spread over 1000
/// values, and each of the five from 1000 up, spread over 5000.
pub proof fn lemma_major_tickers_listed(t: Seq<char>)
    ensures
        major_ticker(t) <==> seq![
            seq!['A', 'A', 'P', 'L'],
            seq!['M', 'S', 'F', 'T'],
            seq!['N', 'V', 'D', 'A'],
            seq!['T', 'S', 'L', 'A'],
            seq!['G', 'O', 'O', 'G', 'L'],
        ].contains(t),
        !seq![
            seq!['A', 'A', 'P', 'L'],
            seq!['M', 'S', 'F', 'T'],
            seq!['N', 'V', 'D', 'A'],
            seq!['T', 'S', 'L', 'A'],
            seq!['G', 'O', 'O', 'G', 'L'],
        ].contains(t) ==> volume_base(t) == 100 && volume_span(t) == 1000,
        seq![
            seq!['A', 'A', 'P', 'L'],
            seq!['M', 'S', 'F', 'T'],
            seq!['N', 'V', 'D', 'A'],
            seq!['T', 'S', 'L', 'A'],
            seq!['G', 'O', 'O', 'G', 'L'],
        ].contains(t) ==> volume_base(t) == 1000 && volume_span(t) == 5000,
{
    lemma_major_names_contains(t);
}

proof fn lemma_major_names_contains(t: Seq<char>)
    ensures
        seq![
            seq!['A', 'A', 'P', 'L'],
            seq!['M', 'S', 'F', 'T'],
            seq!['N', 'V', 'D', 'A'],
            seq!['T', 'S', 'L', 'A'],
            seq!['G', 'O', 'O', 'G', 'L'],
        ].contains(t) <==> (t == seq!['A', 'A', 'P', 'L'] || t == seq!['M', 'S', 'F', 'T'] || t
            == seq!['N', 'V', 'D', 'A'] || t == seq!['T', 'S', 'L', 'A'] || t == seq![
            'G',
            'O',
            'O',
            'G',
            'L',
        ]),
{
    let names = seq![
        seq!['A', 'A', 'P', 'L'],
        seq!['M', 'S', 'F', 'T'],
        seq!['N', 'V', 'D', 'A'],
        seq!['T', 'S', 'L', 'A'],
        seq!['G', 'O', 'O', 'G', 'L'],
    ];
    if names.contains(t) {
        let i = choose|i: int| 0 <= i < names.len() && names[i] == t;
        assert(i == 0 || i == 1 || i == 2 || i == 3 || i == 4);
    }
    if t == seq!['A', 'A', 'P', 'L'] {
        assert(names[0] == t);
    }
    if t == seq!['M', 'S', 'F', 'T'] {
        assert(names[1] == t);
    }
    if t == seq!['N', 'V', 'D', 'A'] {
        assert(names[2] == t);
    }
    if t == seq!['T', 'S', 'L', 'A'] {
        assert(names[3] == t);
    }
    if t == seq!['G', 'O', 'O', 'G', 'L'] {
        assert(names[4] == t);
    }
}

/// What the quote generator does next in its round over the tickers.
#[derive(Debug, Clone, Copy, PartialEq, Eq)]
pub enum GeneratorAction {
    /// Make a quote for the ticker at this position and hand it to every
    /// subscriber.
    Quote(usize),
    /// The round is over: sleep `QUOTE_INTERVAL_MS`, then start the next one
    /// at the first ticker.
    Sleep,
}

/// The generator's next action when it stands at position `next` of a round
/// over `n_tickers` tickers.
pub open spec fn generator_next(next: usize, n_tickers: usize) -> GeneratorAction {
    if next < n_tickers {
        GeneratorAction::Quote(next)
    } else {
        GeneratorAction::Sleep
    }
}

/// One step of the quote generator: quote every ticker in turn, then sleep.
pub fn generator_action(next: usize, n_tickers: usize) -> (r: GeneratorAction)
    ensures
        r == generator_next(next, n_tickers),
        next < n_tickers ==> r == GeneratorAction::Quote(next),
        next >= n_tickers ==> r == GeneratorAction::Sleep,
{
    if next < n_tickers {
        GeneratorAction::Quote(next)
    } else {
        GeneratorAction::Sleep
    }
}


/// A round over `n_tickers` tickers, started at position 0, quotes every
/// ticker once, in list order, and sleeps only after the last of them.
pub proof fn lemma_generator_round(n_tickers: usize, next: usize)
    ensures
        next < n_tickers ==> generator_next(next, n_tickers) == GeneratorAction::Quote(next),
        next >= n_tickers ==> generator_next(next, n_tickers) == GeneratorAction::Sleep,
        forall|i: usize|
            i < n_tickers ==> #[trigger] generator_next(i, n_tickers) == GeneratorAction::Quote(i),
        generator_next(n_tickers, n_tickers) == GeneratorAction::Sleep,
{
}

} // verus!
