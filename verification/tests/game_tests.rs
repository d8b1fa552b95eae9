use langgame::catalog::RawBundle;
use langgame::catalog::load_all_languages;
use langgame::catalog::LanguageData;
use langgame::game::hint;
use langgame::game::new_game;
use langgame::game::sample;

fn words(n: usize) -> Vec<String> {
    let mut out = Vec::new();
    let letters = ["a", "b", "c", "d", "e", "f", "g", "h", "i", "j"];
    for i in 0..n {
        let mut w = String::new();
        w.push_str("word");
        w.push_str(letters[(i / 10) % 10]);
        w.push_str(letters[i % 10]);
        out.push(w);
    }
    out
}

fn catalog() -> Vec<LanguageData> {
    let fr = RawBundle::from_dir("fr", words(20));
    let pt = RawBundle::from_dir("pt_BR", words(30));
    load_all_languages(&vec![fr, pt])
}

#[test]
fn sample_draws_a_full_round() {
    let list = words(100);
    let s = sample(&list);
    assert_eq!(s.len(), 10);
    for w in &s {
        assert!(list.contains(w));
    }
    for i in 0..s.len() {
        for j in 0..i {
            assert_ne!(s[i], s[j], "sampled words must be distinct");
        }
    }
}

#[test]
fn sample_of_a_short_list_returns_it_all() {
    let list = words(4);
    let mut s = sample(&list);
    assert_eq!(s.len(), 4);
    s.sort();
    let mut expect = list.clone();
    expect.sort();
    assert_eq!(s, expect);
}

#[test]
fn sample_does_not_mutate_its_input() {
    let list = words(50);
    let copy = list.clone();
    let _ = sample(&list);
    assert_eq!(list, copy);
}

#[test]
fn sample_is_not_a_deterministic_identity() {
    let list = words(100);
    let first = sample(&list);
    let mut saw_a_difference = false;
    for _ in 0..20 {
        if sample(&list) != first {
            saw_a_difference = true;
            break;
        }
    }
    assert!(saw_a_difference);
}

#[test]
fn new_game_serves_a_catalog_entry() {
    let cat = catalog();
    let p = new_game(&cat).expect("catalog is not empty");
    assert_eq!(p.words.len(), 10);
    let entry = cat
        .iter()
        .find(|e| e.code == p.language_code)
        .expect("payload code comes from the catalog");
    assert_eq!(p.answer, entry.name);
    assert_eq!(p.valid_answers, entry.valid_answers);
    for w in &p.words {
        assert!(entry.words.contains(w));
    }
}

#[test]
fn new_game_on_an_empty_catalog() {
    let empty: Vec<LanguageData> = Vec::new();
    assert!(new_game(&empty).is_none());
}

#[test]
fn hint_with_a_known_code() {
    let cat = catalog();
    let h = hint(&cat, "fr").expect("fr is in the catalog");
    assert_eq!(h.len(), 10);
    for w in &h {
        assert!(w.len() >= 3);
        assert!(w.chars().all(|c| c.is_alphabetic()));
    }
}

#[test]
fn hint_lowercases_its_query() {
    let cat = catalog();
    assert!(hint(&cat, "FR").is_some());
    assert!(hint(&cat, "PT_br").is_some());
}

#[test]
fn hint_matches_code_or_base() {
    let cat = catalog();
    assert!(hint(&cat, "pt_br").is_some());
    assert!(hint(&cat, "pt").is_some());
}

#[test]
fn hint_with_an_unregistered_code() {
    let cat = catalog();
    assert!(hint(&cat, "zzz-not-real").is_none());
}

#[test]
fn round_trip_from_new_game_to_hint() {
    let cat = catalog();
    for _ in 0..20 {
        let p = new_game(&cat).expect("catalog is not empty");
        let h = hint(&cat, &p.language_code);
        assert!(h.is_some(), "a served language code must be accepted");
        assert_eq!(h.unwrap().len(), 10);
    }
}
