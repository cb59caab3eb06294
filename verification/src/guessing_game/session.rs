//! One session of the game: a secret number, and the player's lines of input
//! answered one by one until a guess meets the secret.

use crate::guessing_game::guess::{parse_guess, parsed_guess, GameError};
use crate::guessing_game::secret::{initialize, is_secret, SECRET_MAX, SECRET_MIN};
use vstd::prelude::*;

verus! {

/// How a guess stands to the secret.
#[derive(Clone, Copy, Debug, PartialEq, Eq, Structural)]
pub enum Comparison {
    /// The guess is smaller than the secret.
    Less,
    /// The guess is greater than the secret.
    Greater,
    /// The guess is the secret.
    Equal,
}

/// What the player is told after a line of input.
#[derive(Clone, Copy, Debug, PartialEq, Eq, Structural)]
pub enum Feedback {
    /// The guess was smaller than the secret.
    TooSmall,
    /// The guess was greater than the secret.
    TooBig,
    /// The guess was the secret.
    Win,
    /// The line held no guess.
    NotANumber,
}

/// Where a session stands.
#[derive(Clone, Copy, Debug, PartialEq, Eq, Structural)]
pub enum State {
    /// Waiting for the player's next line.
    AwaitingInput,
    /// A line has arrived and is being read for a guess.
    Parsing,
    /// A guess has been read and is being held against the secret.
    Comparing,
    /// The secret has been guessed. Nothing follows.
    Won,
}

/// What moves a session from one state to the next.
#[derive(Clone, Copy, Debug, PartialEq, Eq, Structural)]
pub enum Signal {
    /// A line of input has arrived.
    LineReceived,
    /// The line held no guess.
    ParseFailed,
    /// The line held a guess.
    ParseSucceeded,
    /// The guess has been held against the secret.
    Compared(Comparison),
}

/// What the outside hands to a session that is waiting for input.
#[derive(Debug)]
pub enum Event {
    /// A full line was read from the input stream.
    Line(String),
    /// The input stream ended or could not be read.
    InputLost,
}

/// The three-way comparison of a guess with the secret.
pub open spec fn comparison(secret: u32, guess: u32) -> Comparison {
    if guess < secret {
        Comparison::Less
    } else if guess > secret {
        Comparison::Greater
    } else {
        Comparison::Equal
    }
}

/// What the player is told for each way a guess can stand to the secret.
pub open spec fn verdict(c: Comparison) -> Feedback {
    match c {
        Comparison::Less => Feedback::TooSmall,
        Comparison::Greater => Feedback::TooBig,
        Comparison::Equal => Feedback::Win,
    }
}

/// The state that follows `state` on `signal`, if `signal` can occur there.
pub open spec fn transition(state: State, signal: Signal) -> Option<State> {
    match (state, signal) {
        (State::AwaitingInput, Signal::LineReceived) => Some(State::Parsing),
        (State::Parsing, Signal::ParseFailed) => Some(State::AwaitingInput),
        (State::Parsing, Signal::ParseSucceeded) => Some(State::Comparing),
        (State::Comparing, Signal::Compared(Comparison::Less)) => Some(State::AwaitingInput),
        (State::Comparing, Signal::Compared(Comparison::Greater)) => Some(State::AwaitingInput),
        (State::Comparing, Signal::Compared(Comparison::Equal)) => Some(State::Won),
        _ => None,
    }
}

/// What the player is told after the raw line `raw`, in a session with the
/// secret `secret`.
pub open spec fn feedback_for(secret: u32, raw: Seq<char>) -> Feedback {
    match parsed_guess(raw) {
        Some(guess) => verdict(comparison(secret, guess)),
        None => Feedback::NotANumber,
    }
}

/// Where a session with the secret `secret` stands after the raw line `raw`.
pub open spec fn state_after(secret: u32, raw: Seq<char>) -> State {
    if parsed_guess(raw) == Some(secret) {
        State::Won
    } else {
        State::AwaitingInput
    }
}

/// Compares a guess with the secret.
pub fn compare(secret: u32, guess: u32) -> (c: Comparison)
    ensures
        c == comparison(secret, guess),
{
    if guess < secret {
        Comparison::Less
    } else if guess > secret {
        Comparison::Greater
    } else {
        Comparison::Equal
    }
}

/// Moves from `state` on `signal`. `None` where the signal cannot occur in
/// that state; nothing can occur in `Won`.
pub fn advance(state: State, signal: Signal) -> (next: Option<State>)
    ensures
        next == transition(state, signal),
{
    match (state, signal) {
        (State::AwaitingInput, Signal::LineReceived) => Some(State::Parsing),
        (State::Parsing, Signal::ParseFailed) => Some(State::AwaitingInput),
        (State::Parsing, Signal::ParseSucceeded) => Some(State::Comparing),
        (State::Comparing, Signal::Compared(Comparison::Equal)) => Some(State::Won),
        (State::Comparing, Signal::Compared(_)) => Some(State::AwaitingInput),
        _ => None,
    }
}

impl Feedback {
    /// The words of the message.
    pub open spec fn text(self) -> Seq<char> {
        match self {
            Feedback::TooSmall => "too small"@,
            Feedback::TooBig => "too big"@,
            Feedback::Win => "You win!"@,
            Feedback::NotANumber => "please enter a number"@,
        }
    }

    /// The message that is shown to the player.
    pub fn message(&self) -> (m: &'static str)
        ensures
            m@ == self.text(),
    {
        match self {
            Feedback::TooSmall => "too small",
            Feedback::TooBig => "too big",
            Feedback::Win => "You win!",
            Feedback::NotANumber => "please enter a number",
        }
    }

    /// What the player is told for a guess that stands to the secret as `c` says.
    pub fn of(c: Comparison) -> (f: Feedback)
        ensures
            f == verdict(c),
    {
        match c {
            Comparison::Less => Feedback::TooSmall,
            Comparison::Greater => Feedback::TooBig,
            Comparison::Equal => Feedback::Win,
        }
    }
}

/// A session in progress: its secret, fixed for the whole session, and the
/// state it stands in.
#[derive(Clone, Copy, Debug)]
pub struct Session {
    secret: u32,
    state: State,
}

/// How a session ran on a script of input lines.
pub struct Run {
    /// What the player was told, line by line.
    pub feedback: Seq<Feedback>,
    /// How the session ended: with a win, or with the error that ended it.
    pub end: Result<(), GameError>,
}

/// The record of a session that was played on a script of input lines.
#[derive(Debug)]
pub struct Transcript {
    /// What the player was told, line by line.
    pub feedback: Vec<Feedback>,
    /// How the session ended: with a win, or with the error that ended it.
    pub end: Result<(), GameError>,
}

impl View for Transcript {
    type V = Run;

    open spec fn view(&self) -> Run {
        Run { feedback: self.feedback@, end: self.end }
    }
}

/// The characters of each line of a script.
pub open spec fn texts(lines: Seq<String>) -> Seq<Seq<char>> {
    lines.map_values(|line: String| line@)
}

/// How a session with the secret `secret` runs on the input lines `lines`,
/// the end of which is the end of the input stream: each line is answered in
/// turn, the line that holds the secret ends the session with a win, and
/// running out of lines before that ends it with `InputStreamFailure`.
pub open spec fn script_run(secret: u32, lines: Seq<Seq<char>>) -> Run
    decreases lines.len(),
{
    if lines.len() == 0 {
        Run { feedback: Seq::empty(), end: Err(GameError::InputStreamFailure) }
    } else if parsed_guess(lines.first()) == Some(secret) {
        Run { feedback: seq![Feedback::Win], end: Ok(()) }
    } else {
        let rest = script_run(secret, lines.drop_first());
        Run {
            feedback: seq![feedback_for(secret, lines.first())] + rest.feedback,
            end: rest.end,
        }
    }
}

impl Session {
    /// The secret number of the session.
    pub closed spec fn secret(self) -> u32 {
        self.secret
    }

    /// The state in which the session stands.
    pub closed spec fn state(self) -> State {
        self.state
    }

    /// The secret lies between `SECRET_MIN` and `SECRET_MAX`, and between two
    /// lines the session is either waiting for input or won.
    pub open spec fn wf(self) -> bool {
        &&& is_secret(self.secret())
        &&& self.state() == State::AwaitingInput || self.state() == State::Won
    }

    /// Starts a session with a secret drawn at random.
    pub fn start() -> (session: Session)
        ensures
            session.wf(),
            session.state() == State::AwaitingInput,
    {
        Session { secret: initialize(), state: State::AwaitingInput }
    }

    /// Starts a session with the given secret, if it lies between `SECRET_MIN`
    /// and `SECRET_MAX`.
    pub fn with_secret(secret: u32) -> (session: Option<Session>)
        ensures
            session is Some <==> is_secret(secret),
            session matches Some(s) ==> s.wf() && s.secret() == secret && s.state()
                == State::AwaitingInput,
    {
        if SECRET_MIN <= secret && secret <= SECRET_MAX {
            Some(Session { secret, state: State::AwaitingInput })
        } else {
            None
        }
    }

    /// The secret number.
    pub fn secret_number(&self) -> (secret: u32)
        ensures
            secret == self.secret(),
    {
        self.secret
    }

    /// The state in which the session stands.
    pub fn current_state(&self) -> (state: State)
        ensures
            state == self.state(),
    {
        self.state
    }

    /// Whether the secret has been guessed.
    pub fn is_won(&self) -> (won: bool)
        ensures
            won == (self.state() == State::Won),
    {
        self.state == State::Won
    }

    /// Answers one raw line of input: the line is read for a guess, the guess
    /// is held against the secret, and the session is won if they are equal
    /// and waits for the next line if not, or if the line held no guess.
    pub fn submit(&mut self, raw: &str) -> (feedback: Feedback)
        requires
            old(self).wf(),
            old(self).state() == State::AwaitingInput,
        ensures
            final(self).wf(),
            final(self).secret() == old(self).secret(),
            final(self).state() == state_after(old(self).secret(), raw@),
            feedback == feedback_for(old(self).secret(), raw@),
    {
        self.state = advance(self.state, Signal::LineReceived).unwrap();
        match parse_guess(raw) {
            Ok(guess) => {
                self.state = advance(self.state, Signal::ParseSucceeded).unwrap();
                let c = compare(self.secret, guess);
                self.state = advance(self.state, Signal::Compared(c)).unwrap();
                Feedback::of(c)
            },
            Err(_) => {
                self.state = advance(self.state, Signal::ParseFailed).unwrap();
                Feedback::NotANumber
            },
        }
    }

    /// Takes the session one step on: a line of input is answered, and the
    /// loss of the input stream is reported as `InputStreamFailure`, after
    /// which the session is to be given up.
    pub fn step(&mut self, event: Event) -> (result: Result<Feedback, GameError>)
        requires
            old(self).wf(),
            old(self).state() == State::AwaitingInput,
        ensures
            final(self).wf(),
            final(self).secret() == old(self).secret(),
            match event {
                Event::Line(raw) => {
                    &&& result == Ok::<Feedback, GameError>(
                        feedback_for(old(self).secret(), raw@),
                    )
                    &&& final(self).state() == state_after(old(self).secret(), raw@)
                },
                Event::InputLost => {
                    &&& result == Err::<Feedback, GameError>(GameError::InputStreamFailure)
                    &&& final(self).state() == State::AwaitingInput
                },
            },
    {
        match event {
            Event::Line(raw) => Ok(self.submit(raw.as_str())),
            Event::InputLost => Err(GameError::InputStreamFailure),
        }
    }

    /// Plays the session on a script: the lines are answered in turn until one
    /// holds the secret. The end of the script is the end of the input stream.
    pub fn play(&mut self, lines: &Vec<String>) -> (transcript: Transcript)
        requires
            old(self).wf(),
            old(self).state() == State::AwaitingInput,
        ensures
            final(self).wf(),
            final(self).secret() == old(self).secret(),
            transcript@ == script_run(old(self).secret(), texts(lines@)),
            final(self).state() == State::Won <==> transcript.end is Ok,
    {
        let ghost script = texts(lines@);
        let ghost secret = self.secret();
        let mut feedback: Vec<Feedback> = Vec::new();
        let mut i: usize = 0;
        while i < lines.len()
            invariant
                self.wf(),
                self.state() == State::AwaitingInput,
                self.secret() == secret,
                secret == old(self).secret(),
                script == texts(lines@),
                i <= lines.len(),
                feedback@.len() == i,
                forall|j: int|
                    0 <= j < i ==> parsed_guess(#[trigger] script[j]) != Some(secret)
                        && feedback@[j] == feedback_for(secret, script[j]),
            decreases lines.len() - i,
        {
            let answer = self.submit(lines[i].as_str());
            feedback.push(answer);
            assert(script[i as int] == lines@[i as int]@);
            if self.is_won() {
                proof {
                    lemma_script_run_from(secret, script, i as int);
                    assert(script.skip(i as int).first() == script[i as int]);
                    assert(feedback@ =~= Seq::new(
                        i as nat,
                        |j: int| feedback_for(secret, script[j]),
                    ) + seq![Feedback::Win]);
                }
                return Transcript { feedback, end: Ok(()) };
            }
            i += 1;
        }
        proof {
            lemma_script_run_from(secret, script, i as int);
            assert(script.skip(i as int).len() == 0);
            assert(feedback@ =~= Seq::new(i as nat, |j: int| feedback_for(secret, script[j]))
                + Seq::<Feedback>::empty());
        }
        Transcript { feedback, end: Err(GameError::InputStreamFailure) }
    }
}

/// A script whose first `i` lines do not hold the secret runs as its rest
/// does, after the answers to those lines.
proof fn lemma_script_run_from(secret: u32, lines: Seq<Seq<char>>, i: int)
    requires
        0 <= i <= lines.len(),
        forall|j: int| 0 <= j < i ==> parsed_guess(#[trigger] lines[j]) != Some(secret),
    ensures
        script_run(secret, lines).feedback == Seq::new(
            i as nat,
            |j: int| feedback_for(secret, lines[j]),
        ) + script_run(secret, lines.skip(i)).feedback,
        script_run(secret, lines).end == script_run(secret, lines.skip(i)).end,
    decreases i,
{
    let answers = Seq::new(i as nat, |j: int| feedback_for(secret, lines[j]));
    if i == 0 {
        assert(lines.skip(0) =~= lines);
        assert(answers + script_run(secret, lines).feedback =~= script_run(secret, lines).feedback);
    } else {
        let rest = lines.drop_first();
        assert(parsed_guess(lines[0]) != Some(secret));
        assert forall|j: int| 0 <= j < i - 1 implies parsed_guess(#[trigger] rest[j]) != Some(
            secret,
        ) by {
            assert(rest[j] == lines[j + 1]);
        }
        lemma_script_run_from(secret, rest, i - 1);
        assert(rest.skip(i - 1) =~= lines.skip(i));
        let rest_answers = Seq::new((i - 1) as nat, |j: int| feedback_for(secret, rest[j]));
        assert(answers =~= seq![feedback_for(secret, lines.first())] + rest_answers);
        assert(seq![feedback_for(secret, lines.first())] + (rest_answers + script_run(
            secret,
            lines.skip(i),
        ).feedback) =~= answers + script_run(secret, lines.skip(i)).feedback);
    }
}

/// A session played on a script whose last line holds the secret is won, and
/// the last thing the player is told is the win message.
pub proof fn lemma_script_ending_in_secret_wins(secret: u32, lines: Seq<Seq<char>>)
    requires
        lines.len() > 0,
        parsed_guess(lines.last()) == Some(secret),
    ensures
        script_run(secret, lines).end is Ok,
        script_run(secret, lines).feedback.len() > 0,
        script_run(secret, lines).feedback.last() == Feedback::Win,
    decreases lines.len(),
{
    if parsed_guess(lines.first()) != Some(secret) {
        let rest = lines.drop_first();
        assert(rest.len() > 0);
        assert(rest.last() == lines.last());
        lemma_script_run_first(secret, lines);
        lemma_script_ending_in_secret_wins(secret, rest);
    }
}

/// A script whose first line does not hold the secret runs as the rest of it
/// does, after the answer to that line.
proof fn lemma_script_run_first(secret: u32, lines: Seq<Seq<char>>)
    requires
        lines.len() > 0,
        parsed_guess(lines.first()) != Some(secret),
    ensures
        script_run(secret, lines).end == script_run(secret, lines.drop_first()).end,
        script_run(secret, lines).feedback == seq![feedback_for(secret, lines.first())]
            + script_run(secret, lines.drop_first()).feedback,
{
}

/// A session ends once, at the first line that holds the secret: every line
/// up to there is answered, none before it with the win message, and no line
/// after it is read. Where no line holds the secret, every line is answered
/// and the session ends with `InputStreamFailure`.
pub proof fn lemma_session_ends_at_first_match(secret: u32, lines: Seq<Seq<char>>)
    ensures
        ({
            let run = script_run(secret, lines);
            let told = run.feedback;
            &&& told.len() <= lines.len()
            &&& forall|j: int| 0 <= j < told.len() ==> told[j] == feedback_for(secret, lines[j])
            &&& match run.end {
                Ok(_) => {
                    &&& told.len() > 0
                    &&& parsed_guess(lines[told.len() - 1]) == Some(secret)
                    &&& forall|j: int|
                        0 <= j < told.len() - 1 ==> parsed_guess(#[trigger] lines[j]) != Some(
                            secret,
                        )
                },
                Err(e) => {
                    &&& e == GameError::InputStreamFailure
                    &&& told.len() == lines.len()
                    &&& forall|j: int|
                        0 <= j < lines.len() ==> parsed_guess(#[trigger] lines[j]) != Some(secret)
                },
            }
        }),
    decreases lines.len(),
{
    if lines.len() > 0 && parsed_guess(lines.first()) != Some(secret) {
        let rest = lines.drop_first();
        lemma_script_run_first(secret, lines);
        lemma_session_ends_at_first_match(secret, rest);
        let told = script_run(secret, lines).feedback;
        let rest_told = script_run(secret, rest).feedback;
        assert forall|j: int| 0 <= j < told.len() implies told[j] == feedback_for(
            secret,
            lines[j],
        ) by {
            if j > 0 {
                assert(told[j] == rest_told[j - 1]);
                assert(rest[j - 1] == lines[j]);
            }
        }
        match script_run(secret, lines).end {
            Ok(_) => {
                assert(rest[rest_told.len() - 1] == lines[told.len() - 1]);
                assert forall|j: int| 0 <= j < told.len() - 1 implies parsed_guess(
                    #[trigger] lines[j],
                ) != Some(secret) by {
                    if j > 0 {
                        assert(rest[j - 1] == lines[j]);
                    }
                }
            },
            Err(_) => {
                assert forall|j: int| 0 <= j < lines.len() implies parsed_guess(
                    #[trigger] lines[j],
                ) != Some(secret) by {
                    if j > 0 {
                        assert(rest[j - 1] == lines[j]);
                    }
                }
            },
        }
    }
}

/// The win message is the answer to the secret and to nothing else.
pub proof fn lemma_win_only_on_secret(secret: u32, raw: Seq<char>)
    ensures
        feedback_for(secret, raw) == Feedback::Win <==> parsed_guess(raw) == Some(secret),
        state_after(secret, raw) == State::Won <==> parsed_guess(raw) == Some(secret),
{
}

/// A line that holds no guess does not end the session: the player is told to
/// enter a number, and the session waits for the next line.
pub proof fn lemma_line_without_guess_is_asked_again(secret: u32, raw: Seq<char>)
    requires
        parsed_guess(raw) is None,
    ensures
        feedback_for(secret, raw) == Feedback::NotANumber,
        state_after(secret, raw) == State::AwaitingInput,
        transition(State::Parsing, Signal::ParseFailed) == Some(State::AwaitingInput),
{
}

/// A session whose input stream holds no line at all ends with
/// `InputStreamFailure`, and the player is told nothing.
pub proof fn lemma_closed_input_fails(secret: u32)
    ensures
        script_run(secret, Seq::empty()).end == Err::<(), GameError>(
            GameError::InputStreamFailure,
        ),
        script_run(secret, Seq::empty()).feedback.len() == 0,
{
}

/// Nothing moves a session that is won, and the only way into `Won` is a
/// guess that is equal to the secret.
pub proof fn lemma_won_is_terminal(state: State, signal: Signal)
    ensures
        transition(State::Won, signal) is None,
        transition(state, signal) == Some(State::Won) <==> state == State::Comparing && signal
            == Signal::Compared(Comparison::Equal),
{
}

} // verus!
