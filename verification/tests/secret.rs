use guessing_game::game::Game;
use guessing_game::secret::{draw_secret, HIGHEST_SECRET, LOWEST_SECRET};

#[test]
fn bounds_are_one_and_a_hundred() {
    assert_eq!(LOWEST_SECRET, 1);
    assert_eq!(HIGHEST_SECRET, 100);
}

#[test]
fn drawn_secrets_lie_in_range_and_vary() {
    let draws: Vec<u32> = (0..2000).map(|_| draw_secret()).collect();
    for s in &draws {
        assert!((1..=100).contains(s), "drew {}", s);
    }
    assert!(draws.iter().any(|s| *s != draws[0]));
    assert!(draws.iter().any(|s| *s != 1));
    assert!(draws.iter().any(|s| *s != 101));
}

#[test]
fn a_started_game_is_open_with_a_secret_in_range() {
    for _ in 0..200 {
        let mut game = Game::start();
        let secret: u32 = game.secret();
        assert!((1..=100).contains(&secret));
        assert!(!game.is_done());
        assert!(game.step(&secret.to_string()).is_win());
        assert!(game.is_done());
    }
}
