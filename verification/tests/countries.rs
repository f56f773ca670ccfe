use autocomplete::country_search::CountrySearch;

#[test]
fn the_table_holds_every_country() {
    let search = CountrySearch::default();
    let all = search.prefix_lookup("f");
    assert!(!all.is_empty());
}

#[test]
fn an_exact_name_finds_its_country() {
    let search = CountrySearch::default();
    let hits = search.prefix_lookup("France");
    assert_eq!(hits.len(), 1);
    assert_eq!(hits[0].long_name, "France");
    assert_eq!(hits[0].alpha2, "FR");
    assert_eq!(hits[0].alpha3, "FRA");
    assert_eq!(hits[0].code, "250");
    assert_eq!(hits[0].value, 250);
}

#[test]
fn matching_ignores_case_on_both_sides() {
    let search = CountrySearch::default();
    // the stored keys are lowercased, and so is the query: a query in the
    // wrong case still finds its country
    let hits = search.prefix_lookup("fRaNc");
    assert_eq!(hits.len(), 1);
    assert_eq!(hits[0].long_name, "France");
}

#[test]
fn an_alpha3_code_is_a_key_too() {
    let search = CountrySearch::default();
    let hits = search.prefix_lookup("DEU");
    assert!(hits.iter().any(|c| c.long_name == "Germany"));
}

#[test]
fn an_alias_is_a_key_too() {
    let search = CountrySearch::default();
    let hits = search.prefix_lookup("russia");
    assert!(hits.iter().any(|c| c.long_name == "The Russian Federation"));
}

#[test]
fn an_empty_query_finds_nothing() {
    let search = CountrySearch::default();
    assert!(search.prefix_lookup("").is_empty());
}

#[test]
fn an_overlong_query_finds_nothing() {
    let search = CountrySearch::default();
    let query = "a".repeat(3000);
    assert!(search.prefix_lookup(&query).is_empty());
}

#[test]
fn every_hit_carries_a_name_with_the_queried_prefix() {
    let search = CountrySearch::default();
    let hits = search.prefix_lookup("germ");
    assert!(!hits.is_empty());
    for country in &hits {
        assert!(country
            .names()
            .iter()
            .any(|name| name.to_lowercase().starts_with("germ")));
    }
}

#[test]
fn an_unknown_prefix_finds_nothing() {
    let search = CountrySearch::default();
    assert!(search.prefix_lookup("zzzzzz").is_empty());
}

#[test]
fn one_country_is_listed_once_even_under_many_keys() {
    let search = CountrySearch::default();
    // "united" begins several aliases of the same countries; each country
    // still appears only once
    let hits = search.prefix_lookup("united");
    assert!(!hits.is_empty());
    for (i, a) in hits.iter().enumerate() {
        for b in hits.iter().skip(i + 1) {
            assert_ne!(a.long_name, b.long_name);
        }
    }
}

#[test]
fn results_come_in_table_order() {
    let search = CountrySearch::default();
    let hits = search.prefix_lookup("united");
    let names: Vec<&str> = hits.iter().map(|c| c.long_name.as_str()).collect();
    let uae = names
        .iter()
        .position(|n| *n == "The United Arab Emirates")
        .unwrap();
    let usa = names
        .iter()
        .position(|n| *n == "The United States Of America")
        .unwrap();
    let tanzania = names
        .iter()
        .position(|n| n.contains("Tanzania"))
        .unwrap();
    // the ISO table lists the United Arab Emirates before the United
    // States, and Tanzania ("United Republic Of...") later still
    assert!(uae < usa);
    assert!(usa < tanzania);
}

#[test]
fn cloning_a_country_keeps_every_field() {
    let search = CountrySearch::default();
    let hits = search.prefix_lookup("russia");
    let russia = hits
        .iter()
        .find(|c| c.long_name == "The Russian Federation")
        .unwrap();
    let copy = russia.clone();
    assert_eq!(copy.code, russia.code);
    assert_eq!(copy.value, russia.value);
    assert_eq!(copy.alpha2, russia.alpha2);
    assert_eq!(copy.alpha3, russia.alpha3);
    assert_eq!(copy.long_name, russia.long_name);
    assert_eq!(copy.aliases, russia.aliases);
}

#[test]
fn names_lists_codes_name_and_aliases_in_order() {
    let search = CountrySearch::default();
    let hits = search.prefix_lookup("France");
    let names = hits[0].names();
    assert_eq!(names[0], "250");
    assert_eq!(names[1], "FR");
    assert_eq!(names[2], "FRA");
    assert_eq!(names[3], "France");
    assert_eq!(names.len(), 4 + hits[0].aliases.len());
}
