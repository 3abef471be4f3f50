//! The game: a secret, and the judgement of each line the player sends.
//!
//! A game has two phases. It awaits input until a guess equals the secret;
//! from then on it is done. A line that holds no guess is passed over without
//! a trace.

use crate::input::{parse_guess, parse_spec};
use crate::secret::{draw_secret, is_secret, HIGHEST_SECRET, LOWEST_SECRET};
use vstd::prelude::*;

verus! {

/// How a guess stands to the secret.
#[derive(Clone, Copy, Debug, PartialEq, Eq, Structural)]
pub enum Verdict {
    /// The guess is below the secret.
    TooSmall,
    /// The guess is above the secret.
    TooBig,
    /// The guess is the secret.
    Win,
}

/// Where a game stands.
#[derive(Clone, Copy, Debug, PartialEq, Eq, Structural)]
pub enum Phase {
    /// No correct guess yet: the game takes another line.
    AwaitingInput,
    /// The secret has been guessed: the game is over.
    Done,
}

/// What the game answers to one line of input.
#[derive(Clone, Copy, Debug, PartialEq, Eq, Structural)]
pub enum Reply {
    /// The line held no guess; nothing is reported.
    Ignored,
    /// The line held `guess`, which was judged.
    Judged { guess: u32, verdict: Verdict },
}

/// The verdict on `guess` when the secret is `secret`.
pub open spec fn verdict_of(guess: u32, secret: u32) -> Verdict {
    if guess < secret {
        Verdict::TooSmall
    } else if guess > secret {
        Verdict::TooBig
    } else {
        Verdict::Win
    }
}

/// The reply to `line` when the secret is `secret`.
pub open spec fn reply_to(secret: u32, line: Seq<char>) -> Reply {
    match parse_spec(line) {
        None => Reply::Ignored,
        Some(guess) => Reply::Judged { guess, verdict: verdict_of(guess, secret) },
    }
}

/// What the player is told for a verdict.
pub open spec fn message_of(verdict: Verdict) -> Seq<char> {
    match verdict {
        Verdict::TooSmall => "Too small!"@,
        Verdict::TooBig => "Too big!"@,
        Verdict::Win => "You win!"@,
    }
}

impl Verdict {
    /// The words the player is told.
    pub fn message(&self) -> (text: &'static str)
        ensures
            text@ == message_of(*self),
    {
        match self {
            Verdict::TooSmall => "Too small!",
            Verdict::TooBig => "Too big!",
            Verdict::Win => "You win!",
        }
    }
}

impl Reply {
    /// The reply reports a correct guess.
    pub open spec fn wins(self) -> bool {
        self matches Reply::Judged { verdict, .. } && verdict == Verdict::Win
    }

    /// Tells whether the reply reports a correct guess.
    pub fn is_win(&self) -> (b: bool)
        ensures
            b == self.wins(),
    {
        match self {
            Reply::Judged { verdict: Verdict::Win, .. } => true,
            _ => false,
        }
    }
}

/// Judges a guess against the secret.
pub fn judge(guess: u32, secret: u32) -> (verdict: Verdict)
    ensures
        verdict == verdict_of(guess, secret),
{
    if guess < secret {
        Verdict::TooSmall
    } else if guess > secret {
        Verdict::TooBig
    } else {
        Verdict::Win
    }
}

/// A game as contracts see it.
pub ghost struct GameView {
    /// The number to be guessed.
    pub secret: u32,
    /// Where the game stands.
    pub phase: Phase,
}

impl GameView {
    /// A correct guess has been made.
    pub open spec fn done(self) -> bool {
        self.phase == Phase::Done
    }

    /// The reply that this game gives to `line`.
    pub open spec fn reply(self, line: Seq<char>) -> Reply {
        reply_to(self.secret, line)
    }

    /// The game after it has been given `line`: the same secret, and done
    /// if it was done before or the line held the secret.
    pub open spec fn after(self, line: Seq<char>) -> GameView {
        GameView {
            secret: self.secret,
            phase: if self.done() || self.reply(line).wins() {
                Phase::Done
            } else {
                Phase::AwaitingInput
            },
        }
    }
}

/// The lines as sequences of characters.
pub open spec fn texts(lines: Seq<String>) -> Seq<Seq<char>> {
    Seq::new(lines.len(), |i: int| lines[i]@)
}

/// `replies` is what a game with `secret` answers when it is fed `lines` in
/// order and stops reading at the first correct guess.
pub open spec fn is_transcript(secret: u32, lines: Seq<Seq<char>>, replies: Seq<Reply>) -> bool {
    &&& replies.len() <= lines.len()
    &&& forall|i: int| 0 <= i < replies.len() ==> #[trigger] replies[i] == reply_to(secret, lines[i])
    &&& forall|i: int| 0 <= i < replies.len() - 1 ==> !(#[trigger] replies[i]).wins()
    &&& (replies.len() == lines.len() || ends_in_win(replies))
}

/// The last reply reports a correct guess.
pub open spec fn ends_in_win(replies: Seq<Reply>) -> bool {
    replies.len() > 0 && replies.last().wins()
}

/// A running game. The secret is fixed when the game is made and lies between
/// 1 and 100.
#[derive(Debug)]
pub struct Game {
    secret: u32,
    phase: Phase,
}

impl View for Game {
    type V = GameView;

    closed spec fn view(&self) -> GameView {
        GameView { secret: self.secret, phase: self.phase }
    }
}

impl Game {
    #[verifier::type_invariant]
    spec fn secret_in_range(&self) -> bool {
        is_secret(self.secret)
    }

    /// A fresh game with the given secret, or `None` if the number cannot
    /// be a secret.
    pub fn new(secret: u32) -> (game: Option<Game>)
        ensures
            game is Some <==> is_secret(secret),
            game is Some ==> game->0@ == (GameView { secret, phase: Phase::AwaitingInput }),
    {
        if LOWEST_SECRET <= secret && secret <= HIGHEST_SECRET {
            Some(Game { secret, phase: Phase::AwaitingInput })
        } else {
            None
        }
    }

    /// A fresh game with a secret drawn at random.
    pub fn start() -> (game: Game)
        ensures
            is_secret(game@.secret),
            game@.phase == Phase::AwaitingInput,
    {
        Game { secret: draw_secret(), phase: Phase::AwaitingInput }
    }

    /// The secret.
    pub fn secret(&self) -> (s: u32)
        ensures
            s == self@.secret,
            is_secret(s),
    {
        proof {
            use_type_invariant(self);
        }
        self.secret
    }

    /// Where the game stands.
    pub fn phase(&self) -> (phase: Phase)
        ensures
            phase == self@.phase,
    {
        self.phase
    }

    /// Tells whether a correct guess has been made.
    pub fn is_done(&self) -> (b: bool)
        ensures
            b == self@.done(),
    {
        self.phase == Phase::Done
    }

    /// Gives the game one line of input.
    ///
    /// A line that holds no guess is ignored and leaves the game as it was.
    /// A guess is judged; the game is over exactly if the guess is the secret.
    pub fn step(&mut self, line: &str) -> (reply: Reply)
        requires
            !old(self)@.done(),
        ensures
            reply == old(self)@.reply(line@),
            final(self)@ == old(self)@.after(line@),
            parse_spec(line@) is None ==> reply == Reply::Ignored && final(self)@ == old(self)@,
    {
        proof {
            use_type_invariant(&*self);
        }
        match parse_guess(line) {
            None => Reply::Ignored,
            Some(guess) => {
                let verdict = judge(guess, self.secret);
                if guess == self.secret {
                    self.phase = Phase::Done;
                }
                Reply::Judged { guess, verdict }
            },
        }
    }

    /// Feeds the game the lines in order, until one of them is the secret
    /// or none is left, and returns the replies.
    pub fn play(&mut self, lines: &Vec<String>) -> (replies: Vec<Reply>)
        requires
            !old(self)@.done(),
        ensures
            is_transcript(old(self)@.secret, texts(lines@), replies@),
            final(self)@.secret == old(self)@.secret,
            final(self)@.done() == ends_in_win(replies@),
    {
        let mut replies: Vec<Reply> = Vec::new();
        let mut i: usize = 0;
        while i < lines.len() && !self.is_done()
            invariant
                i <= lines.len(),
                i == replies.len(),
                self@.secret == old(self)@.secret,
                self@.done() == ends_in_win(replies@),
                forall|j: int|
                    0 <= j < i ==> #[trigger] replies[j] == reply_to(
                        self@.secret,
                        texts(lines@)[j],
                    ),
                forall|j: int| 0 <= j < i - 1 ==> !(#[trigger] replies[j]).wins(),
            decreases lines.len() - i,
        {
            let reply = self.step(lines[i].as_str());
            replies.push(reply);
            i += 1;
        }
        replies
    }
}

/// If the last of the lines holds the secret, the replies end with a win on
/// the secret, every reply is the right one for its line, and no reply before
/// the last is a win.
pub proof fn lemma_ending_in_secret_wins(secret: u32, lines: Seq<Seq<char>>, replies: Seq<Reply>)
    requires
        is_secret(secret),
        lines.len() > 0,
        parse_spec(lines.last()) == Some(secret),
        is_transcript(secret, lines, replies),
    ensures
        ends_in_win(replies),
        replies.last() == (Reply::Judged { guess: secret, verdict: Verdict::Win }),
        forall|i: int|
            0 <= i < replies.len() ==> (#[trigger] replies[i] matches Reply::Judged {
                guess,
                verdict,
            } ==> parse_spec(lines[i]) == Some(guess) && verdict == verdict_of(guess, secret)),
        forall|i: int| 0 <= i < replies.len() - 1 ==> !(#[trigger] replies[i]).wins(),
{
    assert(replies.len() > 0);
    assert(replies.last() == reply_to(secret, lines[replies.len() - 1]));
}

/// Only one sequence of replies is the transcript of given lines.
pub proof fn lemma_transcript_unique(
    secret: u32,
    lines: Seq<Seq<char>>,
    first: Seq<Reply>,
    second: Seq<Reply>,
)
    requires
        is_transcript(secret, lines, first),
        is_transcript(secret, lines, second),
    ensures
        first == second,
{
    if first.len() < second.len() {
        assert(first.last() == second[first.len() - 1]);
    } else if second.len() < first.len() {
        assert(second.last() == first[second.len() - 1]);
    }
    assert(first =~= second);
}

/// A line that holds no guess gets no verdict and leaves the game as it was.
pub proof fn lemma_malformed_is_ignored(game: GameView, line: Seq<char>)
    requires
        parse_spec(line) is None,
    ensures
        game.reply(line) == Reply::Ignored,
        game.after(line) == game,
{
}

/// A wrong guess leaves the game as it was, so sending it again gets the
/// same reply.
pub proof fn lemma_wrong_guess_repeats(game: GameView, line: Seq<char>)
    requires
        !game.reply(line).wins(),
    ensures
        game.after(line) == game,
        game.after(line).reply(line) == game.reply(line),
{
}

/// A line that holds the secret wins at once, whatever the secret is.
pub proof fn lemma_secret_wins(game: GameView, line: Seq<char>)
    requires
        parse_spec(line) == Some(game.secret),
    ensures
        game.reply(line) == (Reply::Judged { guess: game.secret, verdict: Verdict::Win }),
        game.after(line).done(),
{
}

} // verus!
