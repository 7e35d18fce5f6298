//! The playback scheduler: turns a Morse token stream into the exact
//! sequence of indicator writes and timed sleeps of one playback pass,
//! and states the timing laws that every pass obeys.

use vstd::prelude::*;
use crate::tokens::Token;

verus! {

/// The base time unit, in milliseconds; every duration is a fixed
/// multiple of it.
pub const MULTIPLIER: u64 = 150;

/// How long the indicator stays on for a dot.
pub const DOT_LENGTH_MS: u64 = 1 * MULTIPLIER;

/// How long the indicator stays on for a dash.
pub const DASH_LENGTH_MS: u64 = 3 * MULTIPLIER;

/// The silence between two pulses of the same letter.
pub const INNER_ELEMENT_GAP_MS: u64 = 1 * MULTIPLIER;

/// The silence between two letters of the same word.
pub const LETTER_GAP_MS: u64 = 3 * MULTIPLIER;

/// The silence between two words.
pub const WORD_GAP_MS: u64 = 7 * MULTIPLIER;

/// The silence after a full pass, before the stream restarts.
pub const LOOP_GAP_MS: u64 = 15 * MULTIPLIER;

/// One step of a playback pass: drive the indicator, or sleep.
#[derive(Clone, Copy, PartialEq, Eq, Structural, Debug)]
pub enum Event {
    /// Drive the indicator to the given state (true = on).
    Indicator(bool),
    /// Sleep for the given number of milliseconds.
    Sleep(u64),
}

/// Whether a token is a visible pulse (dot or dash).
pub open spec fn is_pulse(t: Token) -> bool {
    t == Token::Dot || t == Token::Dash
}

/// How long the indicator stays on for a pulse token.
pub open spec fn pulse_ms(t: Token) -> u64 {
    if t == Token::Dot {
        DOT_LENGTH_MS
    } else {
        DASH_LENGTH_MS
    }
}

/// Whether the pulse at index `i` is followed by the gap that separates
/// pulses of one letter: only when another pulse follows directly.
pub open spec fn inner_gap_follows(tokens: Seq<Token>, i: int) -> bool {
    i + 1 < tokens.len() && tokens[i + 1] != Token::LetterGap && tokens[i + 1] != Token::WordGap
}

/// Whether the letter boundary at index `i` plays its gap: not at the end
/// of the stream, not before another letter boundary, and not directly
/// after a word boundary, whose longer gap already covers the silence.
/// The first token of the stream has no previous token, which counts as
/// "not a word boundary".
pub open spec fn letter_gap_applies(tokens: Seq<Token>, i: int) -> bool {
    &&& i + 1 < tokens.len()
    &&& tokens[i + 1] != Token::LetterGap
    &&& !(i >= 1 && tokens[i - 1] == Token::WordGap)
}

/// The events the token at index `i` contributes to a pass.  Every token
/// begins with an off-write, so no pulse depends on unobserved history.
pub open spec fn token_events(tokens: Seq<Token>, i: int) -> Seq<Event> {
    if is_pulse(tokens[i]) {
        if inner_gap_follows(tokens, i) {
            seq![
                Event::Indicator(false),
                Event::Indicator(true),
                Event::Sleep(pulse_ms(tokens[i])),
                Event::Indicator(false),
                Event::Sleep(INNER_ELEMENT_GAP_MS),
            ]
        } else {
            seq![
                Event::Indicator(false),
                Event::Indicator(true),
                Event::Sleep(pulse_ms(tokens[i])),
                Event::Indicator(false),
            ]
        }
    } else if tokens[i] == Token::LetterGap {
        if letter_gap_applies(tokens, i) {
            seq![Event::Indicator(false), Event::Sleep(LETTER_GAP_MS)]
        } else {
            seq![Event::Indicator(false)]
        }
    } else {
        seq![Event::Indicator(false), Event::Sleep(WORD_GAP_MS)]
    }
}

/// The events of the first `n` tokens of a pass, in stream order.
pub open spec fn pass_prefix_events(tokens: Seq<Token>, n: int) -> Seq<Event>
    decreases n,
{
    if n <= 0 {
        Seq::empty()
    } else {
        pass_prefix_events(tokens, n - 1) + token_events(tokens, n - 1)
    }
}

/// The events of one full playback pass: every token's events in order,
/// then the loop gap before the stream restarts.
pub open spec fn pass_events(tokens: Seq<Token>) -> Seq<Event> {
    pass_prefix_events(tokens, tokens.len() as int) + seq![Event::Sleep(LOOP_GAP_MS)]
}

/// The events of the first `passes` playback passes, in order.
pub open spec fn playback_events(tokens: Seq<Token>, passes: nat) -> Seq<Event>
    decreases passes,
{
    if passes == 0 {
        Seq::empty()
    } else {
        playback_events(tokens, (passes - 1) as nat) + pass_events(tokens)
    }
}

/// Whether every on-write of an event sequence is followed by a pulse-length
/// sleep and then an explicit off-write, before anything else happens.
pub open spec fn pulses_turned_off(s: Seq<Event>) -> bool {
    forall|i: int|
        0 <= i < s.len() && #[trigger] s[i] == Event::Indicator(true) ==> {
            &&& i + 2 < s.len()
            &&& (s[i + 1] == Event::Sleep(DOT_LENGTH_MS) || s[i + 1] == Event::Sleep(
                DASH_LENGTH_MS,
            ))
            &&& s[i + 2] == Event::Indicator(false)
        }
}

proof fn lemma_pulses_turned_off_concat(a: Seq<Event>, b: Seq<Event>)
    requires
        pulses_turned_off(a),
        pulses_turned_off(b),
    ensures
        pulses_turned_off(a + b),
{
    assert forall|i: int|
        0 <= i < (a + b).len() && #[trigger] (a + b)[i] == Event::Indicator(true) implies {
        &&& i + 2 < (a + b).len()
        &&& ((a + b)[i + 1] == Event::Sleep(DOT_LENGTH_MS) || (a + b)[i + 1] == Event::Sleep(
            DASH_LENGTH_MS,
        ))
        &&& (a + b)[i + 2] == Event::Indicator(false)
    } by {
        if i < a.len() {
            assert(a[i] == Event::Indicator(true));
            assert((a + b)[i + 1] == a[i + 1]);
            assert((a + b)[i + 2] == a[i + 2]);
        } else {
            let j = i - a.len();
            assert(b[j] == Event::Indicator(true));
            assert((a + b)[i + 1] == b[j + 1]);
            assert((a + b)[i + 2] == b[j + 2]);
        }
    }
}

proof fn lemma_token_events_pulses_turned_off(tokens: Seq<Token>, i: int)
    ensures
        pulses_turned_off(token_events(tokens, i)),
{
}

proof fn lemma_pass_prefix_pulses_turned_off(tokens: Seq<Token>, n: int)
    ensures
        pulses_turned_off(pass_prefix_events(tokens, n)),
    decreases n,
{
    if n <= 0 {
    } else {
        lemma_pass_prefix_pulses_turned_off(tokens, n - 1);
        lemma_token_events_pulses_turned_off(tokens, n - 1);
        lemma_pulses_turned_off_concat(
            pass_prefix_events(tokens, n - 1),
            token_events(tokens, n - 1),
        );
    }
}

/// Law: in every playback pass, every on-write is followed by a sleep of
/// dot or dash length and then an explicit off-write, whatever comes next
/// in the stream.
pub proof fn lemma_pulse_off_after_on(tokens: Seq<Token>)
    ensures
        pulses_turned_off(pass_events(tokens)),
{
    lemma_pass_prefix_pulses_turned_off(tokens, tokens.len() as int);
    lemma_pulses_turned_off_concat(
        pass_prefix_events(tokens, tokens.len() as int),
        seq![Event::Sleep(LOOP_GAP_MS)],
    );
}

/// Law: between two adjacent pulse tokens exactly the inner-element gap is
/// slept: the first pulse's events end with that one gap sleep, and the
/// second pulse's events start with its writes, with no further sleep
/// before the indicator comes on again.
pub proof fn lemma_inner_gap_between_pulses(tokens: Seq<Token>, i: int)
    requires
        0 <= i,
        i + 1 < tokens.len(),
        is_pulse(tokens[i]),
        is_pulse(tokens[i + 1]),
    ensures
        token_events(tokens, i) == seq![
            Event::Indicator(false),
            Event::Indicator(true),
            Event::Sleep(pulse_ms(tokens[i])),
            Event::Indicator(false),
            Event::Sleep(INNER_ELEMENT_GAP_MS),
        ],
        token_events(tokens, i + 1)[0] == Event::Indicator(false),
        token_events(tokens, i + 1)[1] == Event::Indicator(true),
{
}

/// Law: a letter boundary that stands between two letters - the next token
/// starts a new letter and the previous one was not a word boundary -
/// sleeps exactly the letter gap.
pub proof fn lemma_letter_gap_between_letters(tokens: Seq<Token>, i: int)
    requires
        0 <= i < tokens.len(),
        tokens[i] == Token::LetterGap,
        i + 1 < tokens.len(),
        tokens[i + 1] != Token::LetterGap,
        i == 0 || tokens[i - 1] != Token::WordGap,
    ensures
        token_events(tokens, i) == seq![Event::Indicator(false), Event::Sleep(LETTER_GAP_MS)],
{
}

/// Law: a word boundary always sleeps exactly the word gap, and a letter
/// boundary directly after it plays no letter gap on top of it.
pub proof fn lemma_word_gap_never_stacked(tokens: Seq<Token>, i: int)
    requires
        0 <= i < tokens.len(),
        tokens[i] == Token::WordGap,
    ensures
        token_events(tokens, i) == seq![Event::Indicator(false), Event::Sleep(WORD_GAP_MS)],
        i + 1 < tokens.len() && tokens[i + 1] == Token::LetterGap ==> token_events(tokens, i + 1)
            == seq![Event::Indicator(false)],
{
}

/// Law: every pass ends with the loop-gap sleep.
pub proof fn lemma_pass_ends_with_loop_gap(tokens: Seq<Token>)
    ensures
        pass_events(tokens).len() >= 1,
        pass_events(tokens).last() == Event::Sleep(LOOP_GAP_MS),
{
}

/// Law: playback of one more pass replays the whole stream after the
/// previous pass's loop gap, starting from token 0 again.
pub proof fn lemma_playback_extends(tokens: Seq<Token>, passes: nat)
    ensures
        playback_events(tokens, passes + 1) == playback_events(tokens, passes) + pass_events(
            tokens,
        ),
{
}

proof fn lemma_playback_len(tokens: Seq<Token>, passes: nat)
    ensures
        playback_events(tokens, passes).len() == passes * pass_events(tokens).len(),
    decreases passes,
{
    let l = pass_events(tokens).len() as int;
    let p = passes as int;
    if passes == 0 {
        assert(0 * l == 0) by (nonlinear_arith);
    } else {
        lemma_playback_len(tokens, (passes - 1) as nat);
        assert((p - 1) * l + l == p * l) by (nonlinear_arith);
    }
}

/// Law: playback is idempotent looping - within any number of passes,
/// every pass replays the same event sequence, byte for byte.
pub proof fn lemma_passes_identical(tokens: Seq<Token>, passes: nat, k: nat)
    requires
        k < passes,
    ensures
        playback_events(tokens, passes).len() == passes * pass_events(tokens).len(),
        playback_events(tokens, passes).subrange(
            k as int * pass_events(tokens).len() as int,
            (k as int + 1) * pass_events(tokens).len() as int,
        ) == pass_events(tokens),
    decreases passes,
{
    let l = pass_events(tokens).len() as int;
    let p = passes as int;
    let j = k as int;
    let prev = playback_events(tokens, (passes - 1) as nat);
    lemma_playback_len(tokens, passes);
    lemma_playback_len(tokens, (passes - 1) as nat);
    assert((j + 1) * l == j * l + l) by (nonlinear_arith);
    if k == passes - 1 {
        assert(j * l == prev.len());
        assert(playback_events(tokens, passes).subrange(j * l, (j + 1) * l) =~= pass_events(
            tokens,
        ));
    } else {
        lemma_passes_identical(tokens, (passes - 1) as nat, k);
        assert((j + 1) * l <= (p - 1) * l) by (nonlinear_arith)
            requires
                0 <= j + 1 <= p - 1,
                l >= 0,
        ;
        assert(playback_events(tokens, passes).subrange(j * l, (j + 1) * l) =~= prev.subrange(
            j * l,
            (j + 1) * l,
        ));
    }
}

/// Computes the event sequence of one playback pass of the token stream.
pub fn schedule_pass(tokens: &Vec<Token>) -> (events: Vec<Event>)
    ensures
        events@ == pass_events(tokens@),
{
    let mut events: Vec<Event> = Vec::new();
    let n = tokens.len();
    let mut i: usize = 0;
    while i < n
        invariant
            n == tokens@.len(),
            i <= n,
            events@ == pass_prefix_events(tokens@, i as int),
        decreases n - i,
    {
        let t = tokens[i];
        events.push(Event::Indicator(false));
        match t {
            Token::Dot => {
                events.push(Event::Indicator(true));
                events.push(Event::Sleep(DOT_LENGTH_MS));
                events.push(Event::Indicator(false));
                if i + 1 < n && tokens[i + 1] != Token::LetterGap && tokens[i + 1] != Token::WordGap
                {
                    events.push(Event::Sleep(INNER_ELEMENT_GAP_MS));
                }
            },
            Token::Dash => {
                events.push(Event::Indicator(true));
                events.push(Event::Sleep(DASH_LENGTH_MS));
                events.push(Event::Indicator(false));
                if i + 1 < n && tokens[i + 1] != Token::LetterGap && tokens[i + 1] != Token::WordGap
                {
                    events.push(Event::Sleep(INNER_ELEMENT_GAP_MS));
                }
            },
            Token::LetterGap => {
                if i + 1 < n && tokens[i + 1] != Token::LetterGap && !(i >= 1 && tokens[i - 1]
                    == Token::WordGap) {
                    events.push(Event::Sleep(LETTER_GAP_MS));
                }
            },
            Token::WordGap => {
                events.push(Event::Sleep(WORD_GAP_MS));
            },
        }
        proof {
            assert(events@ =~= pass_prefix_events(tokens@, i as int + 1));
        }
        i += 1;
    }
    events.push(Event::Sleep(LOOP_GAP_MS));
    proof {
        assert(events@ =~= pass_events(tokens@));
    }
    events
}

} // verus!
