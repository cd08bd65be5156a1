use crate::choice::{beats, Choice};
use vstd::prelude::*;

verus! {

/// Who took a round, or the match.
#[derive(Debug, Clone, Copy, PartialEq, Eq, Structural)]
pub enum Winner {
    Human,
    Computer,
    Draw,
}

impl Winner {
    /// The name shown for this result.
    pub fn label(&self) -> (r: &'static str)
        ensures
            r@ == match self {
                Winner::Human => "Human"@,
                Winner::Computer => "Computer"@,
                Winner::Draw => "Draw"@,
            },
    {
        match self {
            Winner::Human => "Human",
            Winner::Computer => "Computer",
            Winner::Draw => "Draw",
        }
    }
}

/// Why a round count was refused.
#[derive(Debug, Clone, Copy, PartialEq, Eq, Structural)]
pub enum ConfigError {
    /// The count is even, or below 3; the rejected count is carried.
    InvalidRoundCount(u8),
    /// The text is not a decimal number from 0 to 255.
    NotANumber,
}

/// A valid round count: odd and greater than 2.
pub open spec fn valid_best_of(n: int) -> bool {
    n % 2 == 1 && n > 2
}

/// The text with a leading `+` sign, if any, taken off.
pub open spec fn unsigned_digits(s: Seq<char>) -> Seq<char> {
    if s.len() > 0 && s[0] == '+' {
        s.drop_first()
    } else {
        s
    }
}

pub open spec fn is_digit(c: char) -> bool {
    '0' <= c && c <= '9'
}

/// The number that a string of decimal digits writes.
pub open spec fn digits_value(d: Seq<char>) -> nat
    decreases d.len(),
{
    if d.len() == 0 {
        0
    } else {
        digits_value(d.drop_last()) * 10 + (d.last() as nat - '0' as nat) as nat
    }
}

/// The value of a decimal text as a `u8`: an optional `+` and at least one
/// digit, with a value no greater than 255.
pub open spec fn decimal_u8(s: Seq<char>) -> Option<u8> {
    let d = unsigned_digits(s);
    if d.len() > 0 && (forall|i: int| 0 <= i < d.len() ==> is_digit(#[trigger] d[i]))
        && digits_value(d) <= 255 {
        Some(digits_value(d) as u8)
    } else {
        None
    }
}

/// A round count read from text.
pub open spec fn best_of_from_text(s: Seq<char>) -> Result<nat, ConfigError> {
    match decimal_u8(s) {
        None => Err(ConfigError::NotANumber),
        Some(n) => if valid_best_of(n as int) {
            Ok(n as nat)
        } else {
            Err(ConfigError::InvalidRoundCount(n))
        },
    }
}

/// Reads a decimal `u8` the way `u8::from_str` does.
fn read_u8(s: &str) -> (r: Option<u8>)
    ensures
        r == decimal_u8(s@),
{
    let n = s.unicode_len();
    let mut start: usize = 0;
    if n > 0 && s.get_char(0) == '+' {
        start = 1;
    }
    let ghost d = unsigned_digits(s@);
    assert(d =~= s@.subrange(start as int, n as int));
    if start == n {
        return None;
    }
    let mut value: u32 = 0;
    let mut k: usize = start;
    while k < n
        invariant
            n == s@.len(),
            start <= k <= n,
            d == s@.subrange(start as int, n as int),
            d == unsigned_digits(s@),
            forall|i: int| 0 <= i < k - start ==> is_digit(#[trigger] d[i]),
            value <= 255 ==> value == digits_value(d.subrange(0, k - start)),
            value > 255 ==> digits_value(d.subrange(0, k - start)) > 255,
            value <= 256,
        decreases n - k,
    {
        let c = s.get_char(k);
        if !('0' <= c && c <= '9') {
            assert(!is_digit(d[k - start]));
            assert(!(forall|i: int| 0 <= i < d.len() ==> is_digit(#[trigger] d[i])));
            return None;
        }
        let digit = (c as u32) - ('0' as u32);
        proof {
            let p = d.subrange(0, k + 1 - start);
            assert(p.drop_last() =~= d.subrange(0, k - start));
            assert(p.last() == c);
        }
        if value <= 255 {
            value = value * 10 + digit;
            if value > 255 {
                value = 256;
            }
        }
        k = k + 1;
    }
    assert(d.subrange(0, n - start) =~= d);
    if value <= 255 {
        Some(value as u8)
    } else {
        None
    }
}

/// The number of rounds a match is played over: odd, and at least 3.
#[derive(Debug, Clone, Copy)]
pub struct BestOf(u8);

impl View for BestOf {
    type V = nat;

    closed spec fn view(&self) -> nat {
        self.0 as nat
    }
}

impl BestOf {
    #[verifier::type_invariant]
    spec fn well_formed(self) -> bool {
        valid_best_of(self.0 as int)
    }

    /// Accepts `number` exactly when it is odd and greater than 2.
    pub fn new(number: u8) -> (r: Result<BestOf, ConfigError>)
        ensures
            valid_best_of(number as int) <==> r is Ok,
            r is Ok ==> r->Ok_0@ == number,
            !valid_best_of(number as int) ==> r == Err::<BestOf, ConfigError>(
                ConfigError::InvalidRoundCount(number),
            ),
    {
        if (number % 2 != 0) && (number > 2) {
            Ok(BestOf(number))
        } else {
            Err(ConfigError::InvalidRoundCount(number))
        }
    }
}

impl BestOf {
    /// Reads a round count from decimal text, then validates it as `new`
    /// does.
    pub fn from_decimal(s: &str) -> (r: Result<BestOf, ConfigError>)
        ensures
            match best_of_from_text(s@) {
                Ok(n) => r is Ok && r->Ok_0@ == n,
                Err(e) => r == Err::<BestOf, ConfigError>(e),
            },
    {
        match read_u8(s) {
            Some(value) => BestOf::new(value),
            None => Err(ConfigError::NotANumber),
        }
    }
}

impl std::str::FromStr for BestOf {
    type Err = ConfigError;

    fn from_str(s: &str) -> (r: Result<BestOf, ConfigError>)
        ensures
            match best_of_from_text(s@) {
                Ok(n) => r is Ok && r->Ok_0@ == n,
                Err(e) => r == Err::<BestOf, ConfigError>(e),
            },
    {
        BestOf::from_decimal(s)
    }
}

impl Default for BestOf {
    /// Best of five.
    fn default() -> (r: BestOf)
        ensures
            r@ == 5,
    {
        BestOf(5)
    }
}


/// The standings of a match: points of each side, the number of the round
/// about to be played (the first is 1), and the round count of the match.
pub struct GameView {
    pub human_points: nat,
    pub computer_points: nat,
    pub round: nat,
    pub best_of: nat,
}

/// The standings after `w` is awarded a point (nobody is, on a draw).
pub open spec fn with_point(g: GameView, w: Winner) -> GameView {
    match w {
        Winner::Human => GameView { human_points: g.human_points + 1, ..g },
        Winner::Computer => GameView { computer_points: g.computer_points + 1, ..g },
        Winner::Draw => g,
    }
}

/// The standings once a round with result `w` is over.
pub open spec fn after_round(g: GameView, w: Winner) -> GameView {
    GameView { round: with_point(g, w).round + 1, ..with_point(g, w) }
}

/// The standings after the rounds of `outcomes` are played in order.
pub open spec fn after_rounds(g: GameView, outcomes: Seq<Winner>) -> GameView
    decreases outcomes.len(),
{
    if outcomes.len() == 0 {
        g
    } else {
        after_round(after_rounds(g, outcomes.drop_last()), outcomes.last())
    }
}

/// How many of `outcomes` are `w`.
pub open spec fn count_of(outcomes: Seq<Winner>, w: Winner) -> nat
    decreases outcomes.len(),
{
    if outcomes.len() == 0 {
        0
    } else {
        count_of(outcomes.drop_last(), w) + if outcomes.last() == w {
            1nat
        } else {
            0nat
        }
    }
}

/// Points that give a side a majority of the match: more than half of it.
pub open spec fn majority(best_of: nat) -> nat {
    best_of / 2 + 1
}

/// One side has a majority, so the other can no longer catch up.
pub open spec fn clinched(g: GameView) -> bool {
    g.human_points >= majority(g.best_of) || g.computer_points >= majority(g.best_of)
}

/// Every round of the match has been played.
pub open spec fn all_rounds_played(g: GameView) -> bool {
    g.round > g.best_of
}

/// The match stops when all rounds are played or, if the policy says so, as
/// soon as one side has clinched it.
pub open spec fn match_over(g: GameView, stop_early_on_clinch: bool) -> bool {
    all_rounds_played(g) || (stop_early_on_clinch && clinched(g))
}

/// Who leads the match on points.
pub open spec fn leader(g: GameView) -> Winner {
    if g.computer_points > g.human_points {
        Winner::Computer
    } else if g.computer_points < g.human_points {
        Winner::Human
    } else {
        Winner::Draw
    }
}

/// Who takes a round where the human picks `h` and the computer `c`.
pub open spec fn round_result(h: Choice, c: Choice) -> Winner {
    if beats(h, c) {
        Winner::Human
    } else if beats(c, h) {
        Winner::Computer
    } else {
        Winner::Draw
    }
}

/// The score of a match between a human and the computer.
pub struct Game {
    human_points: u8,
    computer_points: u8,
    round: u8,
    best_of: BestOf,
}

impl View for Game {
    type V = GameView;

    closed spec fn view(&self) -> GameView {
        GameView {
            human_points: self.human_points as nat,
            computer_points: self.computer_points as nat,
            round: self.round as nat,
            best_of: self.best_of@,
        }
    }
}

impl Game {
    /// A match at round 1 with no points, over `best_of` rounds (five if
    /// none is given).
    pub fn new(best_of: Option<BestOf>) -> (r: Game)
        ensures
            r@ == (GameView {
                human_points: 0,
                computer_points: 0,
                round: 1,
                best_of: match best_of {
                    Some(b) => b@,
                    None => 5,
                },
            }),
    {
        Game {
            human_points: 0,
            computer_points: 0,
            round: 1,
            best_of: match best_of {
                Some(value) => value,
                None => BestOf::default(),
            },
        }
    }

    /// Awards a point to the winner of a round; a draw awards none.
    pub fn add_point(&mut self, player: &Winner)
        requires
            *player == Winner::Human ==> old(self)@.human_points < 255,
            *player == Winner::Computer ==> old(self)@.computer_points < 255,
        ensures
            final(self)@ == with_point(old(self)@, *player),
    {
        match player {
            Winner::Human => self.human_points = self.human_points + 1,
            Winner::Computer => self.computer_points = self.computer_points + 1,
            Winner::Draw => (),
        }
    }

    /// The number of the round about to be played.
    pub fn round(&self) -> (r: u8)
        ensures
            r == self@.round,
    {
        self.round
    }

    /// Moves on to the next round.
    pub fn increase_round(&mut self)
        requires
            old(self)@.round < 255,
        ensures
            final(self)@ == (GameView { round: old(self)@.round + 1, ..old(self)@ }),
    {
        self.round = self.round + 1
    }

    /// Ends a round: awards its point, then moves on to the next round.
    pub fn record_round(&mut self, outcome: &Winner)
        requires
            old(self)@.round < 255,
            *outcome == Winner::Human ==> old(self)@.human_points < 255,
            *outcome == Winner::Computer ==> old(self)@.computer_points < 255,
        ensures
            final(self)@ == after_round(old(self)@, *outcome),
    {
        self.add_point(outcome);
        self.increase_round();
    }

    /// The points the human has taken.
    pub fn human_points(&self) -> (r: u8)
        ensures
            r == self@.human_points,
    {
        self.human_points
    }

    /// The points the computer has taken.
    pub fn computer_points(&self) -> (r: u8)
        ensures
            r == self@.computer_points,
    {
        self.computer_points
    }

    /// The number of rounds the match is played over.
    pub fn best_of(&self) -> (r: u8)
        ensures
            r == self@.best_of,
            valid_best_of(r as int),
    {
        proof {
            use_type_invariant(&self.best_of);
        }
        self.best_of.0
    }

    /// Who takes the round: the side whose choice dominates the other's.
    pub fn round_winner(&self, human_choice: &Choice, computer_choice: &Choice) -> (r: Winner)
        ensures
            r == round_result(*human_choice, *computer_choice),
    {
        match human_choice.partial_cmp(computer_choice) {
            Some(std::cmp::Ordering::Greater) => Winner::Human,
            Some(std::cmp::Ordering::Less) => Winner::Computer,
            _ => Winner::Draw,
        }
    }

    /// Who leads on points: the match winner once play has stopped.
    pub fn game_winner(&self) -> (r: Winner)
        ensures
            r == leader(self@),
    {
        if self.computer_points > self.human_points {
            Winner::Computer
        } else if self.computer_points < self.human_points {
            Winner::Human
        } else {
            Winner::Draw
        }
    }

    /// Whether a side has reached a majority of the rounds, so that the
    /// match could stop before all of them are played.
    pub fn enough_points_to_end_game(&self) -> (r: bool)
        ensures
            r == clinched(self@),
    {
        let minimum_round = (self.best_of() / 2) + 1;
        (self.human_points >= minimum_round) || (self.computer_points >= minimum_round)
    }

    /// Whether the match is over: every round is played, or a side has
    /// clinched it and `stop_early_on_clinch` asks to stop there.
    pub fn is_over(&self, stop_early_on_clinch: bool) -> (r: bool)
        ensures
            r == match_over(self@, stop_early_on_clinch),
    {
        self.round > self.best_of() || (stop_early_on_clinch && self.enough_points_to_end_game())
    }
}


/// Playing `k` rounds from any standings moves the round counter on by
/// exactly `k`, awards at most `k` points in all, and takes no point away;
/// so standings with fewer points than rounds played keep that property.
/// Each side gains one point per round of `outcomes` that it took.
pub proof fn lemma_rounds_recorded(g: GameView, outcomes: Seq<Winner>)
    ensures
        after_rounds(g, outcomes).round == g.round + outcomes.len(),
        after_rounds(g, outcomes).human_points + after_rounds(g, outcomes).computer_points
            <= g.human_points + g.computer_points + outcomes.len(),
        after_rounds(g, outcomes).human_points >= g.human_points,
        after_rounds(g, outcomes).computer_points >= g.computer_points,
        after_rounds(g, outcomes).best_of == g.best_of,
        after_rounds(g, outcomes).human_points == g.human_points + count_of(
            outcomes,
            Winner::Human,
        ),
        after_rounds(g, outcomes).computer_points == g.computer_points + count_of(
            outcomes,
            Winner::Computer,
        ),
        g.human_points + g.computer_points < g.round ==> after_rounds(g, outcomes).human_points
            + after_rounds(g, outcomes).computer_points < after_rounds(g, outcomes).round,
    decreases outcomes.len(),
{
    if outcomes.len() > 0 {
        lemma_rounds_recorded(g, outcomes.drop_last());
    }
}

/// In a best-of-five match a side has clinched exactly when its score is 3
/// or more; while both scores are at most 2 nobody has.
pub proof fn lemma_clinch_best_of_five(g: GameView)
    requires
        g.best_of == 5,
    ensures
        clinched(g) <==> (g.human_points >= 3 || g.computer_points >= 3),
        (g.human_points <= 2 && g.computer_points <= 2) ==> !clinched(g),
{
}

/// Swapping the two choices of a round swaps its winner, and a round is
/// drawn exactly when both sides pick the same.
pub proof fn lemma_round_result_swapped(a: Choice, b: Choice)
    ensures
        round_result(a, b) == Winner::Human <==> round_result(b, a) == Winner::Computer,
        round_result(a, b) == Winner::Computer <==> round_result(b, a) == Winner::Human,
        round_result(a, b) == Winner::Draw <==> a == b,
{
}

} // verus!
