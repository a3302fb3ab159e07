use gorldle::game::{correctness_class, guess_squares, is_winning, render_value, Game, GameError, Item};
use gorldle::json::{Json, JsonNumber};
use gorldle::profile::{Correctness, FieldComparison, GuessResponse};

fn s(t: &str) -> Json {
    Json::String(t.to_string())
}

fn item(id: u32, name: &str) -> Item {
    Item { id, name: name.to_string() }
}

fn field(name: &str, value: Json, correct: Correctness) -> FieldComparison {
    FieldComparison { field: name.to_string(), value, correct }
}

fn response(name: &str, verdict: Correctness) -> GuessResponse {
    GuessResponse {
        name: name.to_string(),
        fields: vec![
            field("name", s(name), Correctness::Incorrect),
            field("attribute", s("strength"), verdict),
            field("release_year", Json::Number(JsonNumber::PosInt(2010)), Correctness::Correct),
        ],
    }
}

fn game() -> Game {
    let mut g = Game::new();
    g.load_items(vec![item(1, "Axe"), item(2, "Lina"), item(3, "Lion")]);
    g
}

#[test]
fn submit_trims_and_ignores_case() {
    let mut g = game();
    g.set_input("  lINA \n".to_string());
    let raw = g.input.clone();
    assert_eq!(g.submit(&raw), Some(2));
    assert_eq!(g.input, "");
    assert!(g.error.is_none());
}

#[test]
fn submit_empty_does_nothing() {
    let mut g = game();
    g.set_input("   ".to_string());
    assert_eq!(g.submit("   "), None);
    assert_eq!(g.input, "   ");
    assert!(g.error.is_none());
}

#[test]
fn submit_unknown_name_reports() {
    let mut g = game();
    assert_eq!(g.submit(" Pudge "), None);
    assert_eq!(g.error.as_ref().unwrap().message(), "no character named 'Pudge'");
}

#[test]
fn submit_already_guessed_does_nothing() {
    let mut g = game();
    g.receive(response("Lina", Correctness::Incorrect));
    g.set_input("x".to_string());
    assert_eq!(g.submit("LINA"), None);
    assert_eq!(g.input, "x");
    assert_eq!(g.submit("lion"), Some(3));
}

#[test]
fn winning_and_reset() {
    let mut g = game();
    g.receive(response("Lina", Correctness::Incorrect));
    assert!(!g.won);
    g.receive(response("Axe", Correctness::Correct));
    assert!(g.won);
    g.receive(response("Lion", Correctness::Incorrect));
    assert!(g.won);
    assert_eq!(g.guesses.len(), 3);
    g.report(GameError::Fetch("offline".to_string()));
    g.reset();
    assert!(!g.won);
    assert!(g.guesses.is_empty());
    assert!(g.error.is_none());
    assert_eq!(g.items.len(), 3);
}

#[test]
fn winning_ignores_the_name_field() {
    assert!(is_winning(&response("Axe", Correctness::Correct)));
    assert!(!is_winning(&response("Axe", Correctness::PartiallyCorrect)));
}

#[test]
fn error_messages() {
    assert_eq!(GameError::Parse("bad".to_string()).message(), "parse error: bad");
    assert_eq!(GameError::Fetch("down".to_string()).message(), "fetch error: down");
}

#[test]
fn suggestions_filter_and_limit() {
    let mut g = Game::new();
    let names = ["Lina", "Lion", "Lich", "Luna", "Lycan", "Lone Druid", "Legion", "Leshrac", "Lifestealer", "Axe"];
    g.load_items(names.iter().enumerate().map(|(i, n)| item(i as u32, n)).collect());
    g.set_input("L".to_string());
    let names_of = |v: Vec<Item>| v.into_iter().map(|i| i.name).collect::<Vec<_>>();
    assert_eq!(
        names_of(g.suggestions()),
        vec!["Lina", "Lion", "Lich", "Luna", "Lycan", "Lone Druid", "Legion", "Leshrac"]
    );
    g.set_input("XE".to_string());
    assert_eq!(names_of(g.suggestions()), vec!["Axe"]);
    g.receive(response("axe", Correctness::Incorrect));
    assert!(g.suggestions().is_empty());
    g.set_input(String::new());
    assert!(g.suggestions().is_empty());
    g.set_input("li".to_string());
    assert_eq!(names_of(g.suggestions()), vec!["Lina", "Lion", "Lich", "Lifestealer"]);
}

#[test]
fn rendering_values() {
    assert_eq!(render_value(&s("strength")), "strength");
    assert_eq!(render_value(&Json::Number(JsonNumber::PosInt(2013))), "2013");
    assert_eq!(render_value(&Json::Number(JsonNumber::NegInt(-4))), "-4");
    assert_eq!(
        render_value(&Json::Array(vec![s("carry"), Json::Number(JsonNumber::PosInt(1)), Json::Null])),
        "carry, 1, null"
    );
    assert_eq!(render_value(&Json::Array(vec![])), "");
    assert_eq!(render_value(&Json::Bool(false)), "false");
    assert_eq!(render_value(&Json::Null), "null");
    assert_eq!(
        render_value(&Json::Object(vec![("k".to_string(), s("v\"w"))])),
        "{\"k\":\"v\\\"w\"}"
    );
}

#[test]
fn classes_and_squares() {
    assert_eq!(correctness_class(&Correctness::Correct), "correct");
    assert_eq!(correctness_class(&Correctness::PartiallyCorrect), "partiallycorrect");
    assert_eq!(correctness_class(&Correctness::Incorrect), "incorrect");
    let squares = guess_squares(&response("Axe", Correctness::PartiallyCorrect));
    assert_eq!(squares.len(), 2);
    assert_eq!(squares[0].class, "square partiallycorrect");
    assert_eq!(squares[0].text, "strength");
    assert_eq!(squares[1].class, "square correct");
    assert_eq!(squares[1].text, "2010");
}

#[test]
fn submit_trims_unicode_whitespace() {
    let mut g = game();
    assert_eq!(g.submit("\u{3000}\u{a0}aXe\u{2028}\t"), Some(1));
    assert_eq!(g.submit("\u{200b}Axe"), None);
    assert_eq!(g.error.as_ref().unwrap().message(), "no character named '\u{200b}Axe'");
}
