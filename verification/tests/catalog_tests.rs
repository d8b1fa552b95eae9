use langgame::alias::alias_lookup;
use langgame::catalog::LanguageData;
use langgame::catalog::RawBundle;
use langgame::catalog::build_valid_answers;
use langgame::catalog::load_all_languages;
use langgame::catalog::load_dictionary;
use langgame::paths::base_dir;
use langgame::paths::repo_dir;
use langgame::text::char_prefix;
use langgame::text::has_dic_extension;
use langgame::text::str_eq;

fn lines(v: &[&str]) -> Vec<String> {
    v.iter().map(|s| s.to_string()).collect()
}

fn fifteen_words() -> Vec<String> {
    lines(&[
        "maison/S", "arbre/S", "fleur/S", "chien/S", "chat/S", "livre/S", "porte/S", "route/S",
        "plage/S", "neige/S", "pomme/S", "terre/S", "verre/S", "table/S", "chaise/S",
    ])
}

#[test]
fn word_filtering() {
    let out = load_dictionary(&lines(&["cat/N", "ab/N", "dog2/N", "bird/N"]));
    assert_eq!(out, vec!["cat".to_string(), "bird".to_string()]);
}

#[test]
fn word_filtering_keeps_file_order() {
    let out = load_dictionary(&lines(&["zebra", "yak/X", "ape"]));
    assert_eq!(out, vec!["zebra".to_string(), "yak".to_string(), "ape".to_string()]);
}

#[test]
fn word_length_is_byte_length() {
    // two characters, but three bytes: kept
    let out = load_dictionary(&lines(&["o\u{f9}/S", "ab/S"]));
    assert_eq!(out, vec!["o\u{f9}".to_string()]);
}

#[test]
fn word_filtering_rejects_non_alphabetic() {
    let out = load_dictionary(&lines(&["a-b/N", "hello world", "ab1c", "plain"]));
    assert_eq!(out, vec!["plain".to_string()]);
}

#[test]
fn word_filtering_empty_line() {
    let out = load_dictionary(&lines(&["", "/N", "ok"]));
    assert!(out.is_empty());
}

#[test]
fn valid_answers_from_code_and_name() {
    let va = build_valid_answers("pt_BR", "Portuguese");
    assert_eq!(
        va,
        vec!["pt_br".to_string(), "pt".to_string(), "portuguese".to_string()]
    );
}

#[test]
fn valid_answers_collapse_duplicates() {
    let va = build_valid_answers("French", "French");
    assert_eq!(va, vec!["french".to_string()]);
}

#[test]
fn alias_lookup_values() {
    assert_eq!(alias_lookup("fr"), Some("French".to_string()));
    assert_eq!(alias_lookup("gd"), Some("Scottish Gaelic".to_string()));
    assert_eq!(alias_lookup("gu"), Some("Bengali".to_string()));
    assert_eq!(alias_lookup("hyph"), Some("Oops".to_string()));
    assert_eq!(alias_lookup("zz"), None);
    assert_eq!(alias_lookup("FR"), None);
}

#[test]
fn alias_lookup_last_insertion_wins() {
    assert_eq!(alias_lookup("en"), Some("English".to_string()));
    assert_eq!(alias_lookup("en "), Some("English".to_string()));
    assert_eq!(alias_lookup("pt"), Some("Portuguese".to_string()));
    assert_eq!(alias_lookup("ne"), Some("Nepali".to_string()));
}

#[test]
fn catalog_excludes_unknown_bundles() {
    let fr = RawBundle::from_dir("fr", fifteen_words());
    let unknown = RawBundle::from_dir("xx-unknown", fifteen_words());
    let catalog: Vec<LanguageData> = load_all_languages(&vec![fr, unknown]);
    assert_eq!(catalog.len(), 1);
    assert_eq!(catalog[0].code, "fr");
    assert_eq!(catalog[0].name, "French");
}

#[test]
fn catalog_requires_a_full_round_of_words() {
    let nine = lines(&[
        "maison", "arbre", "fleur", "chien", "chat", "livre", "porte", "route", "plage",
    ]);
    let ten = lines(&[
        "maison", "arbre", "fleur", "chien", "chat", "livre", "porte", "route", "plage", "neige",
    ]);
    let too_few = RawBundle::from_dir("fr", nine);
    let catalog = load_all_languages(&vec![too_few]);
    assert!(catalog.is_empty());
    let enough = RawBundle::from_dir("fr", ten);
    let catalog = load_all_languages(&vec![enough]);
    assert_eq!(catalog.len(), 1);
    assert_eq!(catalog[0].words.len(), 10);
}

#[test]
fn catalog_resolves_through_base() {
    let b = RawBundle::from_dir("pt_BR", fifteen_words());
    assert_eq!(b.code, "pt_br");
    assert_eq!(b.base, "pt");
    let catalog = load_all_languages(&vec![b]);
    assert_eq!(catalog.len(), 1);
    assert_eq!(catalog[0].name, "Portuguese");
    assert_eq!(catalog[0].code, "pt_br");
    assert_eq!(catalog[0].base, "pt");
}

#[test]
fn catalog_valid_answers_come_from_the_display_name() {
    let b = RawBundle::from_dir("fr", fifteen_words());
    let catalog = load_all_languages(&vec![b]);
    assert_eq!(catalog[0].valid_answers, vec!["french".to_string()]);
}

#[test]
fn catalog_word_lists_are_cleaned() {
    let mut raw = fifteen_words();
    raw.push("x1/S".to_string());
    raw.push("ab".to_string());
    let b = RawBundle::from_dir("fr", raw);
    let catalog = load_all_languages(&vec![b]);
    assert_eq!(catalog[0].words.len(), 15);
    assert!(catalog[0].words.iter().all(|w| w.len() >= 3));
    assert!(catalog[0]
        .words
        .iter()
        .all(|w| w.chars().all(|c| c.is_alphabetic())));
}

#[test]
fn dictionary_file_names() {
    assert!(has_dic_extension("en_US.dic"));
    assert!(has_dic_extension("a.b.dic"));
    assert!(!has_dic_extension("en_US.aff"));
    assert!(!has_dic_extension(".dic"));
    assert!(!has_dic_extension("dic"));
    assert!(!has_dic_extension("en_US.dic.bak"));
}

#[test]
fn string_helpers() {
    assert!(str_eq("abc", "abc"));
    assert!(!str_eq("abc", "abd"));
    assert!(!str_eq("abc", "ab"));
    assert_eq!(char_prefix("cat/N", '/'), "cat");
    assert_eq!(char_prefix("plain", '/'), "plain");
    assert_eq!(char_prefix("/N", '/'), "");
}

#[test]
fn corpus_paths() {
    assert_eq!(base_dir("/home/u"), "/home/u/.langgame");
    assert_eq!(repo_dir("/home/u"), "/home/u/.langgame/dictionaries");
}
