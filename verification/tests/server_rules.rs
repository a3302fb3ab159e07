use gorldle::dota::{DotaAttackType, DotaAttribute, DotaEntry, DotaPosition};
use gorldle::json::{Json, JsonNumber};
use gorldle::profile::Correctness;
use gorldle::server::{
    answer_candidates, answer_id_json, check_partial_correctness, choose_answer, compare_entries,
    draw_bound, find_item, get_profile_item, guess_items, judge_guess, list_items, lookup_entry,
    pick_answer_id, GuessError,
};

fn s(t: &str) -> Json {
    Json::String(t.to_string())
}

fn n(v: u64) -> Json {
    Json::Number(JsonNumber::PosInt(v))
}

fn obj(members: Vec<(&str, Json)>) -> Json {
    Json::Object(members.into_iter().map(|(k, v)| (k.to_string(), v)).collect())
}

fn axe() -> DotaEntry {
    DotaEntry {
        id: n(1),
        name: s("Axe"),
        attribute: DotaAttribute::Strength,
        position: vec![DotaPosition::Offlane],
        attack_type: DotaAttackType::Melee,
        release_year: n(2010),
    }
}

fn lina() -> DotaEntry {
    DotaEntry {
        id: n(2),
        name: s("Lina"),
        attribute: DotaAttribute::Intelligence,
        position: vec![DotaPosition::Midlane, DotaPosition::SoftSupport],
        attack_type: DotaAttackType::Ranged,
        release_year: n(2010),
    }
}

fn profile() -> Json {
    obj(vec![
        ("profile_id", n(1)),
        (
            "items",
            Json::Array(vec![
                obj(vec![("id", n(1)), ("name", s("Axe"))]),
                obj(vec![("id", n(2)), ("name", s("Lina"))]),
                obj(vec![("name", s("No id"))]),
                obj(vec![("id", n(300)), ("name", s("Big"))]),
            ]),
        ),
    ])
}

#[test]
fn wire_names_are_lowercase_variants() {
    assert_eq!(DotaAttribute::Universal.wire_name(), "universal");
    assert_eq!(DotaPosition::SoftSupport.wire_name(), "softsupport");
    assert_eq!(DotaPosition::HardSupport.wire_name(), "hardsupport");
    assert_eq!(DotaAttackType::Both.wire_name(), "both");
    assert_eq!(Correctness::PartiallyCorrect.wire_name(), "partiallycorrect");
}

#[test]
fn entry_fields_in_order() {
    let e = lina();
    let fields = e.fields();
    let names: Vec<&str> = fields.iter().map(|(k, _)| *k).collect();
    assert_eq!(names, vec!["name", "attribute", "position", "attack_type", "release_year"]);
    assert_eq!(fields[1].1.text(), "\"intelligence\"");
    assert_eq!(fields[2].1.text(), "[\"midlane\",\"softsupport\"]");
    assert!(e.get("release_year").unwrap().same(&n(2010)));
    assert!(e.get("id").is_none());
    assert!(e.get("nonsense").is_none());
}

#[test]
fn partial_correctness_cases() {
    let a = vec![s("carry"), s("midlane")];
    assert_eq!(check_partial_correctness(&vec![s("midlane"), s("carry")], &a), Correctness::Correct);
    assert_eq!(
        check_partial_correctness(&vec![s("midlane"), s("carry"), s("carry")], &a),
        Correctness::Correct
    );
    assert_eq!(check_partial_correctness(&vec![s("carry")], &a), Correctness::PartiallyCorrect);
    assert_eq!(check_partial_correctness(&vec![s("offlane")], &a), Correctness::Incorrect);
    assert_eq!(check_partial_correctness(&vec![], &vec![]), Correctness::Correct);
    assert_eq!(check_partial_correctness(&vec![], &a), Correctness::Incorrect);
}

#[test]
fn partial_correctness_is_symmetric() {
    let p = vec![s("carry"), s("offlane")];
    let a = vec![s("carry"), s("midlane")];
    assert_eq!(check_partial_correctness(&p, &a), check_partial_correctness(&a, &p));
}

#[test]
fn guessing_the_answer_is_all_correct() {
    let r = compare_entries(&axe(), &axe());
    assert_eq!(r.name, "Axe");
    assert_eq!(r.fields.len(), 5);
    assert!(r.fields.iter().all(|f| f.correct == Correctness::Correct));
}

#[test]
fn guessing_another_character() {
    let r = compare_entries(&lina(), &axe());
    assert_eq!(r.name, "Lina");
    let verdicts: Vec<Correctness> = r.fields.iter().map(|f| f.correct).collect();
    assert_eq!(
        verdicts,
        vec![
            Correctness::Incorrect,
            Correctness::Incorrect,
            Correctness::Incorrect,
            Correctness::Incorrect,
            Correctness::Correct,
        ]
    );
    assert_eq!(r.fields[2].field, "position");
    assert_eq!(r.fields[2].value.text(), "[\"midlane\",\"softsupport\"]");
    let mut support = axe();
    support.position = vec![DotaPosition::SoftSupport, DotaPosition::HardSupport];
    let r = compare_entries(&lina(), &support);
    assert_eq!(r.fields[2].correct, Correctness::PartiallyCorrect);
}

#[test]
fn name_that_is_not_a_string_is_empty() {
    let mut e = axe();
    e.name = n(5);
    assert_eq!(compare_entries(&e, &axe()).name, "");
}

#[test]
fn listing_items() {
    assert_eq!(list_items(&profile()).as_array().unwrap().len(), 4);
    assert!(list_items(&obj(vec![])).same(&Json::Null));
}

#[test]
fn answer_candidates_cut_to_a_byte() {
    assert_eq!(answer_candidates(&profile()), vec![1, 2, 44]);
    assert_eq!(answer_candidates(&obj(vec![("items", n(3))])), Vec::<u8>::new());
}

#[test]
fn choosing_an_answer() {
    assert_eq!(choose_answer(&vec![4, 5], 1), 5);
    assert_eq!(choose_answer(&vec![4, 5], 2), 1);
    assert_eq!(choose_answer(&vec![], 0), 1);
}

#[test]
fn picked_answer_is_a_candidate() {
    for _ in 0..50 {
        let id = pick_answer_id(&profile());
        assert!(id == 1 || id == 2 || id == 44);
    }
    assert_eq!(pick_answer_id(&obj(vec![])), 1);
}

#[test]
fn finding_items_by_id() {
    let p = profile();
    let items = p.get("items").unwrap().as_array().unwrap();
    assert_eq!(find_item(items, 2), Some(1));
    assert_eq!(find_item(items, 44), None);
    assert_eq!(get_profile_item(&p, 1).get("name").unwrap().as_str(), Some("Axe"));
    assert_eq!(get_profile_item(&p, 9).text(), "{\"error\":\"Entry not found\"}");
    assert_eq!(get_profile_item(&obj(vec![]), 1).text(), "{\"error\":\"Entry not found\"}");
}

#[test]
fn guess_lookup_errors() {
    let missing = obj(vec![]);
    let e = guess_items(&missing).unwrap_err();
    assert!(matches!(e, GuessError::NoItems));
    assert_eq!(e.status(), 500);
    assert_eq!(e.message(), "no items");
    let p = profile();
    let items = guess_items(&p).unwrap();
    let e = lookup_entry(items, 7).unwrap_err();
    assert_eq!(e.status(), 404);
    assert_eq!(e.message(), "no entry for id 7");
    assert!(lookup_entry(items, 2).unwrap().get("name").unwrap().same(&s("Lina")));
    let e = GuessError::Malformed("missing field `attribute`".to_string());
    assert_eq!(e.status(), 500);
    assert_eq!(e.message(), "missing field `attribute`");
}

#[test]
fn new_answer_announcement() {
    assert_eq!(answer_id_json(5).text(), "{\"id\":5}");
}

#[test]
fn partial_correctness_treats_zeros_alike() {
    let zero = Json::Number(JsonNumber::Float { bits: 0.0f64.to_bits(), text: "0.0".to_string() });
    let minus_zero = Json::Number(JsonNumber::Float { bits: (-0.0f64).to_bits(), text: "-0.0".to_string() });
    assert_eq!(check_partial_correctness(&vec![zero], &vec![minus_zero]), Correctness::Correct);
}

#[test]
fn draw_bounds() {
    assert_eq!(draw_bound(0), 1);
    assert_eq!(draw_bound(1), 1);
    assert_eq!(draw_bound(7), 7);
}

#[test]
fn judging_in_order() {
    let r = judge_guess(Err(GuessError::NotFound(3)), Err(GuessError::NotFound(4))).unwrap_err();
    assert_eq!(r.message(), "no entry for id 3");
    let r = judge_guess(Ok(axe()), Err(GuessError::Malformed("bad".to_string()))).unwrap_err();
    assert_eq!(r.message(), "bad");
    let r = judge_guess(Ok(lina()), Ok(lina())).unwrap();
    assert!(r.fields.iter().all(|f| f.correct == Correctness::Correct));
}
