use fontfor::family::{FaceInfo, Family, FilteredFamilies};

fn face(id: usize, family: &str, name: &str) -> FaceInfo {
    FaceInfo {
        id,
        family: family.to_string(),
        name: name.to_string(),
        path: String::new(),
        index: 0,
        gid: 1,
    }
}

fn family(name: &str, faces: Vec<FaceInfo>) -> Family {
    let mut f = Family::new(name.to_string());
    for face in faces {
        f.add_face(face);
    }
    f
}

fn catalog() -> Vec<Family> {
    vec![
        family("Arial", vec![face(0, "Arial", "Arial Regular")]),
        family("Courier New", vec![face(1, "Courier New", "Courier New Regular")]),
    ]
}

#[test]
fn keyword_arial_matches_only_arial() {
    let f = FilteredFamilies::new(catalog(), "arial".to_string());
    assert_eq!(f.matched_indices(), vec![0]);
}

#[test]
fn widening_to_ar_still_matches_only_arial() {
    // "ar" is a prefix of "arial": the widening fast path fires, and the
    // matched set must still agree with the literal substring predicate.
    let mut f = FilteredFamilies::new(catalog(), "arial".to_string());
    f.change_keyword("ar");
    assert_eq!(f.matched_indices(), vec![0]);
}

#[test]
fn empty_keyword_matches_everything() {
    let f = FilteredFamilies::new(catalog(), String::new());
    assert_eq!(f.matched_indices(), vec![0, 1]);
}

#[test]
fn narrowing_from_empty_keyword() {
    let mut f = FilteredFamilies::new(catalog(), String::new());
    f.change_keyword("courier");
    assert_eq!(f.matched_indices(), vec![1]);
}

#[test]
fn unrelated_keyword_rescans() {
    let mut f = FilteredFamilies::new(catalog(), "arial".to_string());
    f.change_keyword("new");
    assert_eq!(f.matched_indices(), vec![1]);
}

#[test]
fn incremental_typing_agrees_with_fresh_scan() {
    // Type a keyword letter by letter, then delete back, and compare the
    // matched set after every step with a from-scratch filter.
    let steps = ["a", "ar", "ari", "aria", "arial", "aria", "ar", "a", ""];
    let mut f = FilteredFamilies::new(catalog(), String::new());
    for step in steps {
        f.change_keyword(step);
        let fresh = FilteredFamilies::new(catalog(), step.to_string());
        assert_eq!(f.matched_indices(), fresh.matched_indices());
    }
}

#[test]
fn change_keyword_twice_is_idempotent() {
    let mut f = FilteredFamilies::new(catalog(), String::new());
    f.change_keyword("arial");
    let first = f.matched_indices();
    let keyword_after_first = f.keyword().clone();
    f.change_keyword("arial");
    assert_eq!(f.matched_indices(), first);
    assert_eq!(f.keyword(), &keyword_after_first);
}

#[test]
fn keyword_is_lowercased_for_matching() {
    let mut f = FilteredFamilies::new(catalog(), "ARIAL".to_string());
    assert_eq!(f.matched_indices(), vec![0]);
    assert_eq!(f.keyword(), "arial");
    f.change_keyword("Courier");
    assert_eq!(f.matched_indices(), vec![1]);
}

#[test]
fn no_family_matches_nonsense() {
    let f = FilteredFamilies::new(catalog(), "zzz".to_string());
    assert!(f.matched_indices().is_empty());
    assert!(!f.is_empty());
}

#[test]
fn empty_catalog_is_empty() {
    let f = FilteredFamilies::new(Vec::new(), String::new());
    assert!(f.is_empty());
    assert!(f.matched_indices().is_empty());
}

#[test]
fn matched_returns_the_families_in_order() {
    let f = FilteredFamilies::new(catalog(), String::new());
    let matched = f.matched();
    assert_eq!(matched.len(), 2);
    assert_eq!(matched[0].name, "Arial");
    assert_eq!(matched[1].name, "Courier New");
    let g = FilteredFamilies::new(catalog(), "courier".to_string());
    let matched = g.matched();
    assert_eq!(matched.len(), 1);
    assert_eq!(matched[0].name, "Courier New");
}

#[test]
fn substring_search_matches_predicate() {
    let s: Vec<char> = "courier new".chars().collect();
    let hit: Vec<char> = "r n".chars().collect();
    let miss: Vec<char> = "ar".chars().collect();
    let empty: Vec<char> = Vec::new();
    assert!(fontfor::family::contains_subseq(&s, &hit));
    assert!(!fontfor::family::contains_subseq(&s, &miss));
    assert!(fontfor::family::contains_subseq(&s, &empty));
}
