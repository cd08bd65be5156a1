use rand::rngs::StdRng;
use rand::Rng;
use std::cmp::Ordering;
use vstd::prelude::*;

verus! {

/// One of the three symmetric options a player may pick in a round.
#[derive(Debug, Clone, Copy, PartialEq, Eq, Structural)]
pub enum Choice {
    Rock,
    Paper,
    Scissors,
}

/// `a` strictly dominates `b`: rock blunts scissors, scissors cut paper,
/// paper wraps rock.
pub open spec fn beats(a: Choice, b: Choice) -> bool {
    ||| (a == Choice::Rock && b == Choice::Scissors)
    ||| (a == Choice::Scissors && b == Choice::Paper)
    ||| (a == Choice::Paper && b == Choice::Rock)
}

/// How `a` compares with `b` under the dominance rule.
pub open spec fn ordering_of(a: Choice, b: Choice) -> Ordering {
    if beats(a, b) {
        Ordering::Greater
    } else if beats(b, a) {
        Ordering::Less
    } else {
        Ordering::Equal
    }
}

impl PartialOrd for Choice {
    fn partial_cmp(&self, other: &Choice) -> (r: Option<Ordering>)
        ensures
            r == Some(ordering_of(*self, *other)),
    {
        match (self, other) {
            (Choice::Rock, Choice::Paper) => Some(Ordering::Less),
            (Choice::Rock, Choice::Scissors) => Some(Ordering::Greater),
            (Choice::Paper, Choice::Rock) => Some(Ordering::Greater),
            (Choice::Paper, Choice::Scissors) => Some(Ordering::Less),
            (Choice::Scissors, Choice::Paper) => Some(Ordering::Greater),
            (Choice::Scissors, Choice::Rock) => Some(Ordering::Less),
            _ => Some(Ordering::Equal),
        }
    }
}

impl vstd::std_specs::cmp::PartialOrdSpecImpl for Choice {
    open spec fn obeys_partial_cmp_spec() -> bool {
        true
    }

    open spec fn partial_cmp_spec(&self, other: &Choice) -> Option<Ordering> {
        Some(ordering_of(*self, *other))
    }
}

/// Why a typed choice was refused.
#[derive(Debug, Clone, Copy, PartialEq, Eq, Structural)]
pub enum ParseError {
    /// The text names none of the three choices.
    UnrecognizedChoice,
}

/// What `str::to_lowercase` makes of a text: its Unicode lowercase mapping.
pub uninterp spec fn lower_of(s: Seq<char>) -> Seq<char>;

/// Relies on `str::to_lowercase`: the result depends on the characters alone.
#[verifier::external_body]
fn lowercase(s: &str) -> (r: String)
    ensures
        r@ == lower_of(s@),
{
    s.to_lowercase()
}

/// The blanks that surround a typed word: the Unicode `White_Space`
/// characters, line terminators among them.
pub open spec fn is_blank(c: char) -> bool {
    ||| ('\t' <= c && c <= '\r')
    ||| c == ' '
    ||| c == '\u{85}'
    ||| c == '\u{A0}'
    ||| c == '\u{1680}'
    ||| ('\u{2000}' <= c && c <= '\u{200A}')
    ||| c == '\u{2028}'
    ||| c == '\u{2029}'
    ||| c == '\u{202F}'
    ||| c == '\u{205F}'
    ||| c == '\u{3000}'
}

/// `s` without its leading blanks.
pub open spec fn trim_start(s: Seq<char>) -> Seq<char>
    decreases s.len(),
{
    if s.len() > 0 && is_blank(s[0]) {
        trim_start(s.drop_first())
    } else {
        s
    }
}

/// `s` without its trailing blanks.
pub open spec fn trim_end(s: Seq<char>) -> Seq<char>
    decreases s.len(),
{
    if s.len() > 0 && is_blank(s.last()) {
        trim_end(s.drop_last())
    } else {
        s
    }
}

/// `s` without blanks at either end.
pub open spec fn trimmed(s: Seq<char>) -> Seq<char> {
    trim_end(trim_start(s))
}

/// The choice that a lowercase word names, in full or by its first letter.
pub open spec fn choice_named(w: Seq<char>) -> Option<Choice> {
    if w == "rock"@ || w == "r"@ {
        Some(Choice::Rock)
    } else if w == "paper"@ || w == "p"@ {
        Some(Choice::Paper)
    } else if w == "scissors"@ || w == "s"@ {
        Some(Choice::Scissors)
    } else {
        None
    }
}

/// The result of reading an already lowercased text as a choice.
pub open spec fn parse_folded_spec(t: Seq<char>) -> Result<Choice, ParseError> {
    match choice_named(trimmed(t)) {
        Some(c) => Ok(c),
        None => Err(ParseError::UnrecognizedChoice),
    }
}

/// The result of reading any text as a choice, case-insensitively.
pub open spec fn parse_spec(s: Seq<char>) -> Result<Choice, ParseError> {
    parse_folded_spec(lower_of(s))
}

/// Whether `s[from..to]` is the word `w`.
fn span_is(s: &str, from: usize, to: usize, w: &str) -> (r: bool)
    requires
        from <= to <= s@.len(),
    ensures
        r == (s@.subrange(from as int, to as int) == w@),
{
    let n = w.unicode_len();
    if to - from != n {
        return false;
    }
    let mut k: usize = 0;
    while k < n
        invariant
            n == w@.len(),
            to - from == n,
            from <= to <= s@.len(),
            k <= n,
            forall|m: int| 0 <= m < k ==> s@[from + m] == w@[m],
        decreases n - k,
    {
        if s.get_char(from + k) != w.get_char(k) {
            assert(s@.subrange(from as int, to as int)[k as int] != w@[k as int]);
            return false;
        }
        k = k + 1;
    }
    assert(s@.subrange(from as int, to as int) =~= w@);
    true
}

impl Choice {
    /// The name shown for this choice.
    pub fn label(&self) -> (r: &'static str)
        ensures
            r@ == match self {
                Choice::Rock => "Rock"@,
                Choice::Paper => "Paper"@,
                Choice::Scissors => "Scissors"@,
            },
    {
        match self {
            Choice::Rock => "Rock",
            Choice::Paper => "Paper",
            Choice::Scissors => "Scissors",
        }
    }

    /// Reads a text that is already in lowercase: blanks at either end are
    /// dropped, and what remains must be "rock", "paper", "scissors" or one
    /// of "r", "p", "s".
    pub fn parse_folded(t: &str) -> (r: Result<Choice, ParseError>)
        ensures
            r == parse_folded_spec(t@),
    {
        let n = t.unicode_len();
        let mut i: usize = 0;
        assert(t@.subrange(0, n as int) =~= t@);
        while i < n && is_blank_char(t.get_char(i))
            invariant
                n == t@.len(),
                i <= n,
                trim_start(t@) == trim_start(t@.subrange(i as int, n as int)),
            decreases n - i,
        {
            assert(t@.subrange(i as int, n as int).drop_first() =~= t@.subrange(i + 1, n as int));
            i = i + 1;
        }
        proof {
            if i < n {
                assert(t@.subrange(i as int, n as int)[0] == t@[i as int]);
            }
        }
        let mut j: usize = n;
        while j > i && is_blank_char(t.get_char(j - 1))
            invariant
                n == t@.len(),
                i <= j <= n,
                trimmed(t@) == trim_end(t@.subrange(i as int, j as int)),
            decreases j - i,
        {
            assert(t@.subrange(i as int, j as int).drop_last() =~= t@.subrange(i as int, j - 1));
            j = j - 1;
        }
        proof {
            if i < j {
                assert(t@.subrange(i as int, j as int).last() == t@[j - 1]);
            }
        }
        if span_is(t, i, j, "rock") || span_is(t, i, j, "r") {
            Ok(Choice::Rock)
        } else if span_is(t, i, j, "paper") || span_is(t, i, j, "p") {
            Ok(Choice::Paper)
        } else if span_is(t, i, j, "scissors") || span_is(t, i, j, "s") {
            Ok(Choice::Scissors)
        } else {
            Err(ParseError::UnrecognizedChoice)
        }
    }

    /// Reads a typed choice: case does not matter, and blanks at either end
    /// (a line terminator among them) are dropped.
    pub fn parse(s: &str) -> (r: Result<Choice, ParseError>)
        ensures
            r == parse_spec(s@),
    {
        let lowered = lowercase(s);
        Choice::parse_folded(lowered.as_str())
    }
}

impl std::convert::TryFrom<String> for Choice {
    type Error = ParseError;

    fn try_from(value: String) -> Result<Choice, ParseError> {
        Choice::parse(value.as_str())
    }
}

impl vstd::std_specs::convert::TryFromSpecImpl<String> for Choice {
    open spec fn obeys_try_from_spec() -> bool {
        true
    }

    open spec fn try_from_spec(v: String) -> Result<Choice, ParseError> {
        parse_spec(v@)
    }
}

/// The choice that a drawn index in `0..=2` stands for.
pub open spec fn choice_at(n: u8) -> Choice {
    if n == 0 {
        Choice::Rock
    } else if n == 1 {
        Choice::Paper
    } else {
        Choice::Scissors
    }
}

/// `rand::rngs::StdRng`, carried through to the draw without being looked into.
#[verifier::external_type_specification]
#[verifier::external_body]
pub struct ExStdRng(StdRng);

/// Relies on `rand::Rng::gen_range` over the inclusive range `lo..=hi`: a
/// uniformly drawn value inside that range. The call panics on an empty
/// range, which `lo <= hi` rules out.
#[verifier::external_body]
fn draw_in_range(rng: &mut StdRng, lo: u8, hi: u8) -> (r: u8)
    requires
        lo <= hi,
    ensures
        lo <= r <= hi,
{
    rng.gen_range(lo..=hi)
}

impl Choice {
    /// The choice for index `n`: 0 is rock, 1 is paper, anything else scissors.
    pub fn from_index(n: u8) -> (r: Choice)
        ensures
            r == choice_at(n),
    {
        match n {
            0 => Choice::Rock,
            1 => Choice::Paper,
            _ => Choice::Scissors,
        }
    }

    /// The computer's pick: an index drawn uniformly from `0..=2` by `rng`,
    /// mapped by `from_index`.
    pub fn random(rng: &mut StdRng) -> (r: Choice)
        ensures
            exists|n: u8| n <= 2 && r == choice_at(n),
    {
        let n = draw_in_range(rng, 0, 2);
        Choice::from_index(n)
    }
}

/// Comparing two choices either way gives opposite orderings, and a choice
/// only ties with itself.
pub proof fn lemma_ordering_antisymmetric(a: Choice, b: Choice)
    ensures
        ordering_of(a, b) == Ordering::Greater <==> ordering_of(b, a) == Ordering::Less,
        ordering_of(a, b) == Ordering::Less <==> ordering_of(b, a) == Ordering::Greater,
        ordering_of(a, b) == Ordering::Equal <==> a == b,
        ordering_of(a, a) == Ordering::Equal,
{
}

/// Dominance is the fixed cycle rock over scissors, scissors over paper,
/// paper over rock; no other pair is in the relation, and it is not
/// transitive.
pub proof fn lemma_dominance_cycle(a: Choice, b: Choice)
    ensures
        beats(Choice::Rock, Choice::Scissors),
        beats(Choice::Scissors, Choice::Paper),
        beats(Choice::Paper, Choice::Rock),
        beats(a, b) <==> (a, b) == (Choice::Rock, Choice::Scissors) || (a, b) == (
            Choice::Scissors,
            Choice::Paper,
        ) || (a, b) == (Choice::Paper, Choice::Rock),
        !beats(Choice::Rock, Choice::Paper),
        !beats(a, a),
        beats(a, b) ==> !beats(b, a),
{
}

fn is_blank_char(c: char) -> (r: bool)
    ensures
        r == is_blank(c),
{
    ('\t' <= c && c <= '\r') || c == ' ' || c == '\u{85}' || c == '\u{A0}' || c == '\u{1680}'
        || ('\u{2000}' <= c && c <= '\u{200A}') || c == '\u{2028}' || c == '\u{2029}'
        || c == '\u{202F}' || c == '\u{205F}' || c == '\u{3000}'
}

} // verus!
