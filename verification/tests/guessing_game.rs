use exercises::guessing_game::guess::{is_whitespace_char, parse_guess, parse_number, GameError};
use exercises::guessing_game::secret::{initialize, SECRET_MAX, SECRET_MIN};
use exercises::guessing_game::session::{
    advance, compare, Comparison, Event, Feedback, Session, Signal, State,
};

fn std_parse(raw: &str) -> Result<u32, GameError> {
    raw.trim().parse::<u32>().map_err(|_| GameError::ParseFailure)
}

fn lines(script: &[&str]) -> Vec<String> {
    script.iter().map(|line| line.to_string()).collect()
}

const SAMPLES: [&str; 44] = [
    "",
    " ",
    "\n",
    "0",
    "1",
    "50",
    "100",
    "50\n",
    "50\r\n",
    "  50  ",
    "\t50\t",
    "+50",
    "+ 50",
    " +50 ",
    "++50",
    "+",
    "-",
    "-50",
    "-0",
    "+0",
    "007",
    "00000000000000000000000000000012",
    "4294967295",
    "4294967296",
    "+4294967295",
    "04294967296",
    "99999999999999999999999999",
    "18446744073709551616",
    "abc",
    "3.5",
    "5 0",
    "50x",
    "x50",
    "5_0",
    "0x10",
    "1e3",
    "\u{a0}12\u{3000}",
    "\u{2003}7\u{2028}",
    "\u{200b}7",
    "7\u{200b}",
    "\u{ff11}\u{ff12}",
    "\u{661}",
    "12\u{0}",
    "\u{85}34\u{1680}",
];

#[test]
fn parse_guess_reads_plain_numbers() {
    assert_eq!(parse_guess("50"), Ok(50));
    assert_eq!(parse_guess("0"), Ok(0));
    assert_eq!(parse_guess("75"), Ok(75));
    assert_eq!(parse_guess("007"), Ok(7));
    assert_eq!(parse_guess("+9"), Ok(9));
}

#[test]
fn parse_guess_drops_white_space_at_both_ends() {
    assert_eq!(parse_guess("42\n"), Ok(42));
    assert_eq!(parse_guess("42\r\n"), Ok(42));
    assert_eq!(parse_guess("  \t 42 \n"), Ok(42));
    assert_eq!(parse_guess("\u{a0}12\u{3000}"), Ok(12));
    assert_eq!(parse_guess("4 2"), Err(GameError::ParseFailure));
}

#[test]
fn parse_guess_refuses_what_is_no_number() {
    assert_eq!(parse_guess("abc"), Err(GameError::ParseFailure));
    assert_eq!(parse_guess(""), Err(GameError::ParseFailure));
    assert_eq!(parse_guess("3.5"), Err(GameError::ParseFailure));
    assert_eq!(parse_guess("   "), Err(GameError::ParseFailure));
    assert_eq!(parse_guess("-5"), Err(GameError::ParseFailure));
    assert_eq!(parse_guess("+"), Err(GameError::ParseFailure));
    assert_eq!(parse_guess("++5"), Err(GameError::ParseFailure));
    assert_eq!(parse_guess("\u{ff11}"), Err(GameError::ParseFailure));
}

#[test]
fn parse_guess_keeps_to_the_width_of_u32() {
    assert_eq!(parse_guess("4294967295"), Ok(u32::MAX));
    assert_eq!(parse_guess("4294967296"), Err(GameError::ParseFailure));
    assert_eq!(parse_guess("42949672950"), Err(GameError::ParseFailure));
    assert_eq!(
        parse_guess("340282366920938463463374607431768211456"),
        Err(GameError::ParseFailure)
    );
    assert_eq!(parse_guess("0000000004294967295"), Ok(u32::MAX));
}

#[test]
fn parse_guess_agrees_with_trim_and_parse() {
    for raw in SAMPLES {
        assert_eq!(parse_guess(raw), std_parse(raw), "on {:?}", raw);
    }
    for n in 0u32..2000 {
        let raw = format!(" {}\n", n);
        assert_eq!(parse_guess(&raw), Ok(n));
    }
}

#[test]
fn parse_number_agrees_with_parse() {
    for text in SAMPLES {
        assert_eq!(parse_number(text), text.parse::<u32>().ok(), "on {:?}", text);
    }
    assert_eq!(parse_number("42"), Some(42));
    assert_eq!(parse_number(" 42"), None);
    assert_eq!(parse_number("42\n"), None);
}

#[test]
fn parse_guess_gives_the_same_result_each_time() {
    for raw in SAMPLES {
        let first = parse_guess(raw);
        let second = parse_guess(raw);
        assert_eq!(first, second, "on {:?}", raw);
    }
}

#[test]
fn white_space_is_what_char_says_it_is() {
    let mut code: u32 = 0;
    while code <= 0x10FFFF {
        if let Some(c) = char::from_u32(code) {
            assert_eq!(is_whitespace_char(c), c.is_whitespace(), "on U+{:04X}", code);
        }
        code += 1;
    }
}

#[test]
fn compare_is_three_way() {
    assert_eq!(compare(75, 50), Comparison::Less);
    assert_eq!(compare(75, 90), Comparison::Greater);
    assert_eq!(compare(75, 75), Comparison::Equal);
    assert_eq!(compare(0, u32::MAX), Comparison::Greater);
    assert_eq!(compare(u32::MAX, 0), Comparison::Less);
    for secret in 1u32..=100 {
        for guess in 0u32..=101 {
            let expected = if guess < secret {
                Comparison::Less
            } else if guess > secret {
                Comparison::Greater
            } else {
                Comparison::Equal
            };
            assert_eq!(compare(secret, guess), expected);
        }
    }
}

#[test]
fn feedback_messages() {
    assert_eq!(Feedback::TooSmall.message(), "too small");
    assert_eq!(Feedback::TooBig.message(), "too big");
    assert_eq!(Feedback::Win.message(), "You win!");
    assert_eq!(Feedback::NotANumber.message(), "please enter a number");
    assert_eq!(Feedback::of(Comparison::Less), Feedback::TooSmall);
    assert_eq!(Feedback::of(Comparison::Greater), Feedback::TooBig);
    assert_eq!(Feedback::of(Comparison::Equal), Feedback::Win);
}

#[test]
fn transitions_of_the_state_machine() {
    let states = [State::AwaitingInput, State::Parsing, State::Comparing, State::Won];
    let signals = [
        Signal::LineReceived,
        Signal::ParseFailed,
        Signal::ParseSucceeded,
        Signal::Compared(Comparison::Less),
        Signal::Compared(Comparison::Greater),
        Signal::Compared(Comparison::Equal),
    ];
    for state in states {
        for signal in signals {
            let expected = match (state, signal) {
                (State::AwaitingInput, Signal::LineReceived) => Some(State::Parsing),
                (State::Parsing, Signal::ParseFailed) => Some(State::AwaitingInput),
                (State::Parsing, Signal::ParseSucceeded) => Some(State::Comparing),
                (State::Comparing, Signal::Compared(Comparison::Less)) => {
                    Some(State::AwaitingInput)
                }
                (State::Comparing, Signal::Compared(Comparison::Greater)) => {
                    Some(State::AwaitingInput)
                }
                (State::Comparing, Signal::Compared(Comparison::Equal)) => Some(State::Won),
                _ => None,
            };
            assert_eq!(advance(state, signal), expected, "{:?} on {:?}", state, signal);
        }
    }
}

#[test]
fn won_is_terminal() {
    assert_eq!(advance(State::Won, Signal::LineReceived), None);
    assert_eq!(advance(State::Won, Signal::ParseFailed), None);
    assert_eq!(advance(State::Won, Signal::ParseSucceeded), None);
    assert_eq!(advance(State::Won, Signal::Compared(Comparison::Equal)), None);
}

#[test]
fn session_takes_secrets_from_one_to_a_hundred() {
    assert!(Session::with_secret(0).is_none());
    assert!(Session::with_secret(101).is_none());
    assert!(Session::with_secret(u32::MAX).is_none());
    for secret in 1u32..=100 {
        let session = Session::with_secret(secret).unwrap();
        assert_eq!(session.secret_number(), secret);
        assert_eq!(session.current_state(), State::AwaitingInput);
        assert!(!session.is_won());
    }
}

#[test]
fn guesses_against_seventy_five() {
    let mut session = Session::with_secret(75).unwrap();
    assert_eq!(session.submit("50"), Feedback::TooSmall);
    assert_eq!(session.current_state(), State::AwaitingInput);
    assert_eq!(session.submit("90"), Feedback::TooBig);
    assert_eq!(session.current_state(), State::AwaitingInput);
    assert_eq!(session.submit("75"), Feedback::Win);
    assert_eq!(session.current_state(), State::Won);
    assert!(session.is_won());
    assert_eq!(session.secret_number(), 75);
}

#[test]
fn messages_against_seventy_five() {
    let mut session = Session::with_secret(75).unwrap();
    assert_eq!(session.submit("50\n").message(), "too small");
    assert_eq!(session.submit("90\n").message(), "too big");
    assert_eq!(session.submit("75\n").message(), "You win!");
    assert!(session.is_won());
}

#[test]
fn line_without_a_number_is_asked_again() {
    for raw in ["abc", "", "3.5", "\n", "seventy-five", "75!"] {
        let mut session = Session::with_secret(75).unwrap();
        let feedback = session.submit(raw);
        assert_eq!(feedback, Feedback::NotANumber, "on {:?}", raw);
        assert_eq!(feedback.message(), "please enter a number");
        assert_eq!(session.current_state(), State::AwaitingInput);
        assert!(!session.is_won());
        assert_eq!(session.submit("75"), Feedback::Win);
    }
}

#[test]
fn step_answers_a_line() {
    let mut session = Session::with_secret(10).unwrap();
    assert_eq!(session.step(Event::Line("3\n".to_string())), Ok(Feedback::TooSmall));
    assert_eq!(session.step(Event::Line("x\n".to_string())), Ok(Feedback::NotANumber));
    assert_eq!(session.step(Event::Line("11\n".to_string())), Ok(Feedback::TooBig));
    assert!(!session.is_won());
    assert_eq!(session.step(Event::Line("10\n".to_string())), Ok(Feedback::Win));
    assert!(session.is_won());
}

#[test]
fn step_reports_the_loss_of_the_input_stream() {
    let mut session = Session::with_secret(10).unwrap();
    assert_eq!(session.step(Event::InputLost), Err(GameError::InputStreamFailure));
    assert_eq!(session.current_state(), State::AwaitingInput);
    assert_eq!(session.secret_number(), 10);
}

#[test]
fn closed_input_fails_without_a_round() {
    let mut session = Session::with_secret(42).unwrap();
    let transcript = session.play(&Vec::new());
    assert_eq!(transcript.end, Err(GameError::InputStreamFailure));
    assert!(transcript.feedback.is_empty());
    assert!(!session.is_won());
}

#[test]
fn every_script_that_ends_in_the_secret_is_won() {
    for secret in 1u32..=100 {
        let scripts = [
            vec![secret.to_string()],
            vec!["0".to_string(), "101".to_string(), format!("{}\n", secret)],
            vec!["abc".to_string(), "".to_string(), "3.5".to_string(), format!(" +{} ", secret)],
            vec![(secret - 1).to_string(), (secret + 1).to_string(), secret.to_string()],
        ];
        for script in scripts {
            let mut session = Session::with_secret(secret).unwrap();
            let transcript = session.play(&script);
            assert_eq!(transcript.end, Ok(()));
            assert_eq!(transcript.feedback.len(), script.len());
            assert_eq!(transcript.feedback.last(), Some(&Feedback::Win));
            assert_eq!(transcript.feedback.last().unwrap().message(), "You win!");
            assert!(session.is_won());
            assert_eq!(session.secret_number(), secret);
        }
    }
}

#[test]
fn play_answers_line_by_line() {
    let mut session = Session::with_secret(75).unwrap();
    let transcript = session.play(&lines(&["50", "abc", "90", "", "75"]));
    assert_eq!(
        transcript.feedback,
        vec![
            Feedback::TooSmall,
            Feedback::NotANumber,
            Feedback::TooBig,
            Feedback::NotANumber,
            Feedback::Win
        ]
    );
    assert_eq!(transcript.end, Ok(()));
}

#[test]
fn play_stops_at_the_first_match() {
    let mut session = Session::with_secret(7).unwrap();
    let transcript = session.play(&lines(&["1", "7", "9", "7"]));
    assert_eq!(transcript.feedback, vec![Feedback::TooSmall, Feedback::Win]);
    assert_eq!(transcript.end, Ok(()));
    assert!(session.is_won());
}

#[test]
fn play_fails_when_the_lines_run_out() {
    let mut session = Session::with_secret(7).unwrap();
    let transcript = session.play(&lines(&["1", "nine", "9"]));
    assert_eq!(
        transcript.feedback,
        vec![Feedback::TooSmall, Feedback::NotANumber, Feedback::TooBig]
    );
    assert_eq!(transcript.end, Err(GameError::InputStreamFailure));
    assert!(!session.is_won());
    assert_eq!(session.current_state(), State::AwaitingInput);
}

#[test]
fn secrets_cover_one_to_a_hundred() {
    assert_eq!(SECRET_MIN, 1);
    assert_eq!(SECRET_MAX, 100);
    let mut seen = [false; 101];
    for _ in 0..100_000 {
        let secret = initialize();
        assert!((1..=100).contains(&secret), "{} is out of range", secret);
        seen[secret as usize] = true;
    }
    assert!(seen[1]);
    assert!(seen[100]);
    for secret in 1..=100 {
        assert!(seen[secret], "{} never came", secret);
    }
}

#[test]
fn started_session_waits_with_a_secret_in_range() {
    for _ in 0..1000 {
        let session = Session::start();
        assert!((1..=100).contains(&session.secret_number()));
        assert_eq!(session.current_state(), State::AwaitingInput);
    }
}

#[test]
fn started_session_is_won_by_its_secret() {
    let mut session = Session::start();
    let secret = session.secret_number();
    let transcript = session.play(&lines(&["0", "101", &secret.to_string()]));
    assert_eq!(
        transcript.feedback,
        vec![Feedback::TooSmall, Feedback::TooBig, Feedback::Win]
    );
    assert_eq!(transcript.end, Ok(()));
}
