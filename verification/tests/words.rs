use guessing_game::chars::chars_of;
use guessing_game::teams::{team_name, Team};
use guessing_game::words::first_word;

#[test]
fn first_word_of_two_words() {
    assert_eq!(first_word(&String::from("hello world")), "hello");
}

#[test]
fn first_word_without_a_space_is_the_whole_text() {
    assert_eq!(first_word(&String::from("hello")), "hello");
    assert_eq!(first_word(&String::new()), "");
}

#[test]
fn first_word_stops_at_the_first_space_only() {
    assert_eq!(first_word(&String::from(" lead")), "");
    assert_eq!(first_word(&String::from("a  b")), "a");
    assert_eq!(first_word(&String::from("a\tb c")), "a\tb");
    assert_eq!(first_word(&String::from("one two three")), "one");
}

#[test]
fn first_word_counts_characters_not_bytes() {
    assert_eq!(first_word(&String::from("héllo wörld")), "héllo");
    assert_eq!(first_word(&String::from("日本語 テキスト")), "日本語");
    assert_eq!(first_word(&String::from("a\u{a0}b c")), "a\u{a0}b");
}

#[test]
fn team_names() {
    assert_eq!(team_name(Team::NYG), "New York Football Giants.");
    assert_eq!(team_name(Team::DAL), "Dallas Cowboys.");
    assert_eq!(team_name(Team::PHI), "Philadelphia Eagles.");
    assert_eq!(team_name(Team::WAS), "Washington Football Team.");
}

#[test]
fn chars_of_lists_every_character_in_order() {
    assert_eq!(chars_of(""), Vec::<char>::new());
    assert_eq!(chars_of("a b"), vec!['a', ' ', 'b']);
    assert_eq!(chars_of("é日\u{1f600}"), vec!['é', '日', '\u{1f600}']);
    let long: String = "xy".repeat(5000);
    assert_eq!(chars_of(&long).len(), 10000);
}
