//! Tests of the token parser and of the bridge to the external encoder,
//! run against the real encoder crate.

use led_morse::encoder::{encode_tokens, EncodeError};
use led_morse::schedule::{
    schedule_pass, Event, DASH_LENGTH_MS, DOT_LENGTH_MS, INNER_ELEMENT_GAP_MS, LETTER_GAP_MS,
    LOOP_GAP_MS,
};
use led_morse::tokens::{parse_tokens, token_from_char, Token};

#[test]
fn token_from_char_classifies_the_alphabet() {
    assert_eq!(token_from_char('.'), Some(Token::Dot));
    assert_eq!(token_from_char('_'), Some(Token::Dash));
    assert_eq!(token_from_char(' '), Some(Token::LetterGap));
    assert_eq!(token_from_char('/'), Some(Token::WordGap));
    assert_eq!(token_from_char('#'), None);
    assert_eq!(token_from_char('a'), None);
}

#[test]
fn parse_tokens_maps_each_character() {
    let chars: Vec<char> = "._ /".chars().collect();
    assert_eq!(
        parse_tokens(&chars),
        Ok(vec![
            Token::Dot,
            Token::Dash,
            Token::LetterGap,
            Token::WordGap,
        ])
    );
}

#[test]
fn parse_tokens_rejects_a_character_outside_the_alphabet() {
    let chars: Vec<char> = ".._x.".chars().collect();
    assert_eq!(parse_tokens(&chars), Err('x'));
}

#[test]
fn encode_sos() {
    let tokens = encode_tokens("SOS").expect("SOS is encodable");
    let expected: Vec<char> = "... ___ ...".chars().collect();
    assert_eq!(tokens, parse_tokens(&expected).unwrap());
}

#[test]
fn encode_sos_playback_is_deterministic() {
    let tokens = encode_tokens("SOS").expect("SOS is encodable");
    let events = schedule_pass(&tokens);
    let off = Event::Indicator(false);
    let on = Event::Indicator(true);
    let mut expected: Vec<Event> = Vec::new();
    // three dots, the first two followed by the inner element gap
    for i in 0..3 {
        expected.extend([off, on, Event::Sleep(DOT_LENGTH_MS), off]);
        if i < 2 {
            expected.push(Event::Sleep(INNER_ELEMENT_GAP_MS));
        }
    }
    expected.extend([off, Event::Sleep(LETTER_GAP_MS)]);
    // three dashes, the first two followed by the inner element gap
    for i in 0..3 {
        expected.extend([off, on, Event::Sleep(DASH_LENGTH_MS), off]);
        if i < 2 {
            expected.push(Event::Sleep(INNER_ELEMENT_GAP_MS));
        }
    }
    expected.extend([off, Event::Sleep(LETTER_GAP_MS)]);
    // three dots again
    for i in 0..3 {
        expected.extend([off, on, Event::Sleep(DOT_LENGTH_MS), off]);
        if i < 2 {
            expected.push(Event::Sleep(INNER_ELEMENT_GAP_MS));
        }
    }
    expected.push(Event::Sleep(LOOP_GAP_MS));
    assert_eq!(events, expected);
    // and a second invocation replays the same pass
    assert_eq!(schedule_pass(&tokens), events);
}

#[test]
fn encode_two_words() {
    let tokens = encode_tokens("abc def").expect("encodable");
    let expected: Vec<char> = "._ _... _._. / _.. . .._.".chars().collect();
    assert_eq!(tokens, parse_tokens(&expected).unwrap());
}

#[test]
fn encode_reports_unsupported_characters() {
    match encode_tokens("~Hello!") {
        Err(EncodeError::Unsupported(unsupported)) => {
            assert_eq!(unsupported, vec!["~".to_string()]);
        }
        other => panic!("expected an unsupported-character error, got {:?}", other),
    }
}

#[test]
fn encode_empty_text_gives_an_empty_stream() {
    let tokens = encode_tokens("").expect("empty text is encodable");
    assert_eq!(tokens, Vec::new());
}
