use rand::rngs::StdRng;
use rand::SeedableRng;
use rock_paper_scissors::{BestOf, Choice, ConfigError, Game, ParseError, Winner};
use std::cmp::Ordering;
use std::convert::TryFrom;
use std::str::FromStr;

const ALL: [Choice; 3] = [Choice::Rock, Choice::Paper, Choice::Scissors];

fn play(game: &mut Game, outcomes: &[Winner], stop_early_on_clinch: bool) -> usize {
    let mut played: usize = 0;
    for outcome in outcomes {
        if game.is_over(stop_early_on_clinch) {
            break;
        }
        game.record_round(outcome);
        played += 1;
    }
    played
}

#[test]
fn comparing_both_ways_gives_opposite_orderings() {
    for a in ALL.iter() {
        for b in ALL.iter() {
            let ab = a.partial_cmp(b).unwrap();
            let ba = b.partial_cmp(a).unwrap();
            if a == b {
                assert_eq!(ab, Ordering::Equal);
                assert_eq!(ba, Ordering::Equal);
            } else {
                assert_ne!(ab, Ordering::Equal);
                assert_eq!(ab, ba.reverse());
            }
        }
    }
}

#[test]
fn round_winner_swaps_with_the_choices() {
    let game = Game::new(None);
    for a in ALL.iter() {
        for b in ALL.iter() {
            let ab = game.round_winner(a, b);
            let ba = game.round_winner(b, a);
            match ab {
                Winner::Human => assert_eq!(ba, Winner::Computer),
                Winner::Computer => assert_eq!(ba, Winner::Human),
                Winner::Draw => {
                    assert_eq!(ba, Winner::Draw);
                    assert_eq!(a, b);
                }
            }
        }
    }
}

#[test]
fn dominance_is_a_cycle() {
    let game = Game::new(None);
    assert_eq!(game.round_winner(&Choice::Rock, &Choice::Scissors), Winner::Human);
    assert_eq!(game.round_winner(&Choice::Scissors, &Choice::Paper), Winner::Human);
    assert_eq!(game.round_winner(&Choice::Paper, &Choice::Rock), Winner::Human);
    assert_eq!(game.round_winner(&Choice::Rock, &Choice::Paper), Winner::Computer);
    let mut wins: usize = 0;
    for a in ALL.iter() {
        for b in ALL.iter() {
            if game.round_winner(a, b) == Winner::Human {
                wins += 1;
            }
        }
    }
    assert_eq!(wins, 3);
}

#[test]
fn best_of_accepts_only_odd_counts_above_two() {
    for n in [0u8, 1, 2, 4, 6, 254] {
        assert_eq!(BestOf::new(n).unwrap_err(), ConfigError::InvalidRoundCount(n));
    }
    for n in [3u8, 5, 7, 255] {
        let game = Game::new(Some(BestOf::new(n).unwrap()));
        assert_eq!(game.best_of(), n);
    }
}

#[test]
fn default_best_of_is_five() {
    assert_eq!(Game::new(None).best_of(), 5);
    assert_eq!(Game::new(Some(BestOf::default())).best_of(), 5);
}

#[test]
fn round_count_is_read_from_decimal_text() {
    assert_eq!(Game::new(Some(BestOf::from_decimal("7").unwrap())).best_of(), 7);
    assert_eq!(Game::new(Some(BestOf::from_decimal("+9").unwrap())).best_of(), 9);
    assert_eq!(Game::new(Some(BestOf::from_decimal("011").unwrap())).best_of(), 11);
    assert_eq!(Game::new(Some(BestOf::from_str("3").unwrap())).best_of(), 3);
    assert_eq!(BestOf::from_decimal("8").unwrap_err(), ConfigError::InvalidRoundCount(8));
    assert_eq!(BestOf::from_decimal("1").unwrap_err(), ConfigError::InvalidRoundCount(1));
    for text in ["", "+", "-3", "abc", "5 ", " 5", "256", "1000", "3.0"] {
        assert_eq!(BestOf::from_decimal(text).unwrap_err(), ConfigError::NotANumber);
    }
}

#[test]
fn new_game_starts_at_round_one() {
    let game = Game::new(None);
    assert_eq!(game.round(), 1);
    assert_eq!(game.human_points(), 0);
    assert_eq!(game.computer_points(), 0);
    assert_eq!(game.game_winner(), Winner::Draw);
}

#[test]
fn recording_rounds_counts_rounds_and_points() {
    let outcomes = [
        Winner::Draw,
        Winner::Human,
        Winner::Draw,
        Winner::Computer,
        Winner::Human,
        Winner::Draw,
        Winner::Human,
    ];
    let mut game = Game::new(Some(BestOf::new(9).unwrap()));
    for (k, outcome) in outcomes.iter().enumerate() {
        let before = (game.human_points(), game.computer_points());
        game.record_round(outcome);
        assert_eq!(game.round() as usize, 1 + k + 1);
        assert!((game.human_points() + game.computer_points()) as usize <= k + 1);
        assert!(game.human_points() >= before.0);
        assert!(game.computer_points() >= before.1);
    }
    assert_eq!(game.human_points(), 3);
    assert_eq!(game.computer_points(), 1);
    assert_eq!(game.game_winner(), Winner::Human);
}

#[test]
fn increase_round_moves_on_by_one() {
    let mut game = Game::new(None);
    game.increase_round();
    game.increase_round();
    assert_eq!(game.round(), 3);
    assert_eq!(game.human_points(), 0);
}

#[test]
fn draw_awards_no_point() {
    let mut game = Game::new(None);
    game.add_point(&Winner::Draw);
    assert_eq!(game.human_points(), 0);
    assert_eq!(game.computer_points(), 0);
    assert_eq!(game.round(), 1);
}

#[test]
fn best_of_five_is_clinched_at_three() {
    for h in 0u8..5 {
        for c in 0u8..5 {
            let mut game = Game::new(None);
            for _ in 0..h {
                game.add_point(&Winner::Human);
            }
            for _ in 0..c {
                game.add_point(&Winner::Computer);
            }
            assert_eq!(game.enough_points_to_end_game(), h >= 3 || c >= 3);
        }
    }
}

#[test]
fn best_of_three_stops_once_clinched() {
    let mut game = Game::new(Some(BestOf::new(3).unwrap()));
    let played = play(&mut game, &[Winner::Human, Winner::Human, Winner::Computer], true);
    assert_eq!(played, 2);
    assert!(game.is_over(true));
    assert_eq!(game.human_points(), 2);
    assert_eq!(game.computer_points(), 0);
    assert_eq!(game.round(), 3);
    assert_eq!(game.game_winner(), Winner::Human);
}

#[test]
fn best_of_three_without_early_stop_plays_on() {
    let mut game = Game::new(Some(BestOf::new(3).unwrap()));
    let played = play(&mut game, &[Winner::Human, Winner::Human, Winner::Computer], false);
    assert_eq!(played, 3);
    assert!(game.is_over(false));
    assert_eq!(game.human_points(), 2);
    assert_eq!(game.computer_points(), 1);
    assert_eq!(game.round(), 4);
}

#[test]
fn best_of_five_played_in_full_can_be_drawn() {
    let mut game = Game::new(Some(BestOf::new(5).unwrap()));
    let outcomes = [
        Winner::Human,
        Winner::Computer,
        Winner::Draw,
        Winner::Human,
        Winner::Computer,
        Winner::Human,
    ];
    let played = play(&mut game, &outcomes, false);
    assert_eq!(played, 5);
    assert_eq!(game.human_points(), 2);
    assert_eq!(game.computer_points(), 2);
    assert_eq!(game.round(), 6);
    assert_eq!(game.game_winner(), Winner::Draw);
}

#[test]
fn match_is_not_over_before_its_rounds() {
    let mut game = Game::new(None);
    assert!(!game.is_over(true));
    assert!(!game.is_over(false));
    game.record_round(&Winner::Computer);
    game.record_round(&Winner::Computer);
    game.record_round(&Winner::Computer);
    assert!(game.is_over(true));
    assert!(!game.is_over(false));
    assert_eq!(game.game_winner(), Winner::Computer);
}

#[test]
fn parser_accepts_words_and_letters() {
    assert_eq!(Choice::parse("ROCK\n"), Ok(Choice::Rock));
    assert_eq!(Choice::parse("r\n"), Ok(Choice::Rock));
    assert_eq!(Choice::parse("Paper"), Ok(Choice::Paper));
    assert_eq!(Choice::parse("s"), Ok(Choice::Scissors));
    assert_eq!(Choice::parse("  sCiSsOrS\r\n"), Ok(Choice::Scissors));
    assert_eq!(Choice::parse("P\n"), Ok(Choice::Paper));
}

#[test]
fn parser_trims_every_unicode_blank() {
    for text in [
        "rock\u{0B}",
        "rock\u{85}",
        "\u{A0}rock",
        "rock\u{2028}",
        "rock\u{2029}",
        "\u{3000}rock\u{2009}",
        "\u{1680}\u{202F}rock\u{205F}",
    ] {
        assert_eq!(text.trim(), "rock");
        assert_eq!(Choice::parse(text), Ok(Choice::Rock));
        assert_eq!(Choice::parse_folded(text), Ok(Choice::Rock));
    }
    assert_eq!(Choice::parse("\u{200B}rock"), Err(ParseError::UnrecognizedChoice));
}

#[test]
fn parser_rejects_other_text() {
    for text in ["lizard", "", "rock paper", "\n", "rocks", "ro", "x"] {
        assert_eq!(Choice::parse(text), Err(ParseError::UnrecognizedChoice));
    }
}

#[test]
fn parser_folds_case_the_unicode_way() {
    // KELVIN SIGN lowercases to a plain `k`.
    assert_eq!(Choice::parse("ROC\u{212A}"), Ok(Choice::Rock));
    assert_eq!(Choice::parse_folded("ROCK"), Err(ParseError::UnrecognizedChoice));
    assert_eq!(Choice::parse_folded("\trock \n"), Ok(Choice::Rock));
}

#[test]
fn try_from_string_parses() {
    assert_eq!(Choice::try_from(String::from("paper\n")), Ok(Choice::Paper));
    assert_eq!(
        Choice::try_from(String::from("spock\n")),
        Err(ParseError::UnrecognizedChoice)
    );
}

#[test]
fn index_maps_to_choice() {
    assert_eq!(Choice::from_index(0), Choice::Rock);
    assert_eq!(Choice::from_index(1), Choice::Paper);
    assert_eq!(Choice::from_index(2), Choice::Scissors);
}

#[test]
fn random_choice_draws_every_option() {
    let mut rng = StdRng::seed_from_u64(17);
    let mut seen = [false; 3];
    for _ in 0..300 {
        match Choice::random(&mut rng) {
            Choice::Rock => seen[0] = true,
            Choice::Paper => seen[1] = true,
            Choice::Scissors => seen[2] = true,
        }
    }
    assert_eq!(seen, [true, true, true]);
}

#[test]
fn labels_name_the_values() {
    assert_eq!(Choice::Rock.label(), "Rock");
    assert_eq!(Choice::Paper.label(), "Paper");
    assert_eq!(Choice::Scissors.label(), "Scissors");
    assert_eq!(Winner::Human.label(), "Human");
    assert_eq!(Winner::Computer.label(), "Computer");
    assert_eq!(Winner::Draw.label(), "Draw");
}
