use fundamentals::guessing_game::Game;
use fundamentals::guessing_game::Turn;
use fundamentals::guessing_game::Verdict;
use fundamentals::guessing_game::HIGHEST;
use fundamentals::guessing_game::LOWEST;
use fundamentals::numbers::chars_of;
use fundamentals::numbers::is_space;
use fundamentals::numbers::parse_digits;
use fundamentals::numbers::parse_u32;
use fundamentals::numbers::read_number;

/// Finds the secret of `game` by its verdicts.
fn secret_of(game: &Game) -> u32 {
    let mut low = LOWEST;
    let mut high = HIGHEST;
    loop {
        let guess = low + (high - low) / 2;
        match game.judge(guess) {
            Verdict::Win => return guess,
            Verdict::TooSmall => low = guess + 1,
            Verdict::TooLarge => high = guess - 1,
        }
        assert!(low <= high, "the secret lies between 1 and 100");
    }
}

#[test]
fn guesses_are_judged_against_the_secret() {
    let game = Game::with_secret(42);
    assert_eq!(game.judge(41), Verdict::TooSmall);
    assert_eq!(game.judge(43), Verdict::TooLarge);
    assert_eq!(game.judge(42), Verdict::Win);
    assert_eq!(game.judge(0), Verdict::TooSmall);
    assert_eq!(game.judge(u32::MAX), Verdict::TooLarge);
    assert_eq!(Game::with_secret(1).judge(1), Verdict::Win);
    assert_eq!(Game::with_secret(100).judge(100), Verdict::Win);
    assert_eq!(secret_of(&game), 42);
}

#[test]
fn verdicts_have_their_messages() {
    assert_eq!(Verdict::TooSmall.message(), "Too Small");
    assert_eq!(Verdict::TooLarge.message(), "Too Large");
    assert_eq!(Verdict::Win.message(), "You Win!");
    assert!(Verdict::Win.is_win());
    assert!(!Verdict::TooSmall.is_win());
    assert!(!Verdict::TooLarge.is_win());
}

#[test]
fn a_drawn_secret_lies_between_one_and_a_hundred() {
    let mut seen = vec![];
    for _ in 0..200 {
        let game = Game::new();
        assert_eq!(game.judge(0), Verdict::TooSmall);
        assert_eq!(game.judge(101), Verdict::TooLarge);
        let secret = secret_of(&game);
        assert!((1..=100).contains(&secret));
        if !seen.contains(&secret) {
            seen.push(secret);
        }
    }
    assert!(seen.len() > 1, "two hundred draws gave one number only");
}

#[test]
fn lines_become_turns() {
    let game = Game::with_secret(50);
    assert_eq!(game.turn("50\n"), Turn::Guessed(50, Verdict::Win));
    assert_eq!(game.turn("  7  \r\n"), Turn::Guessed(7, Verdict::TooSmall));
    assert_eq!(game.turn("+99"), Turn::Guessed(99, Verdict::TooLarge));
    assert_eq!(game.turn("4294967295"), Turn::Guessed(u32::MAX, Verdict::TooLarge));
    assert_eq!(game.turn("0"), Turn::Guessed(0, Verdict::TooSmall));
    assert_eq!(game.turn("fifty"), Turn::Ignored);
    assert_eq!(game.turn(""), Turn::Ignored);
    assert_eq!(game.turn("\n"), Turn::Ignored);
    assert_eq!(game.turn("-5"), Turn::Ignored);
    assert_eq!(game.turn("4294967296"), Turn::Ignored);
    assert_eq!(game.turn("5 0"), Turn::Ignored);
}

#[test]
fn numbers_are_read_as_the_standard_library_reads_them() {
    let lines = [
        "", " ", "0", "00", "007", "1", "+1", "-1", "+", "-", "++1", "+-1", "1+", "12a", "a12",
        "4294967295", "4294967296", "42949672950", "99999999999999999999", "0000000000004294967295",
        " 12 ", "\t12\n", "\u{a0}12\u{3000}", "1 2", "１２", "٣", "1_000", "0x10", "1e3", "1.0",
        "\u{85}5\u{2028}", "\u{200b}5", "5\u{200b}", "\u{1680}+5\u{205f}", " + 5", "+ 5",
        "\u{b}\u{c}8\r", "²", "4294967290", "4294967299", "429496729", "3000000000",
    ];
    for line in lines {
        assert_eq!(read_number(line), line.trim().parse::<u32>().ok(), "line {line:?}");
        let chars: Vec<char> = line.chars().collect();
        assert_eq!(chars_of(line), chars);
        assert_eq!(parse_u32(&chars, 0, chars.len()), line.parse::<u32>().ok(), "text {line:?}");
    }
    assert_eq!(read_number("  42\n"), Some(42));
    assert_eq!(read_number("4294967295"), Some(u32::MAX));
    assert_eq!(read_number("4294967296"), None);
    assert_eq!(parse_digits(&['1', '2', '3'], 1, 3), Some(23));
    assert_eq!(parse_digits(&['1', '2', '3'], 1, 1), None);
    assert_eq!(parse_digits(&['+', '2'], 0, 2), None);
    assert_eq!(parse_u32(&['x', '+', '2', 'y'], 1, 3), Some(2));
}

#[test]
fn white_space_is_what_the_standard_library_says() {
    for code in 0..=0x3100u32 {
        if let Some(c) = char::from_u32(code) {
            assert_eq!(is_space(c), c.is_whitespace(), "code {code:#x}");
        }
    }
    assert!(!is_space('\u{feff}'));
    assert!(!is_space(char::MAX));
}
