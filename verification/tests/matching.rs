use artisan_core::id::{CanonicalId, ExternalId, FormatId};
use artisan_core::reconcile::matcher::{MatchCandidate, MatchQuery};
use artisan_core::reconcile::matching::{
    contains_chars, eq_ignore_ascii_case, external_id_key, format_id_key, fuzzy_match,
    normalize_for_match, score_name_similarity, to_ascii_lowercase,
};
use artisan_core::reconcile::scoring::score_candidates;

#[test]
fn normalize_collapses_separators_and_lowercases() {
    assert_eq!(normalize_for_match("  Player's   Handbook! "), "player s handbook");
    assert_eq!(normalize_for_match("Core-Rulebook (2nd)"), "core rulebook 2nd");
    assert_eq!(normalize_for_match("!!!"), "");
    assert_eq!(normalize_for_match(""), "");
    assert_eq!(normalize_for_match("Élan vital"), "lan vital");
}

#[test]
fn normalize_is_idempotent_on_examples() {
    for s in ["  Player's   Handbook! ", "A-B-C", "x", "", "Dodge@5 (feat)"] {
        let once = normalize_for_match(s);
        assert_eq!(normalize_for_match(&once), once);
    }
}

#[test]
fn fuzzy_match_cases() {
    assert!(fuzzy_match("Player's Handbook", "player's handbook"));
    assert!(fuzzy_match("Handbook", "Player's Handbook"));
    assert!(fuzzy_match("Player's Handbook", "Handbook"));
    assert!(!fuzzy_match("Xanathar's Guide to Everything", "Player's Handbook"));
    assert!(!fuzzy_match("", "Player's Handbook"));
    assert!(!fuzzy_match("!!", "!!"));
}

#[test]
fn fuzzy_match_is_symmetric_on_examples() {
    let texts = ["Core", "Core Rulebook", "rulebook", "", "Xanathar"];
    for a in texts {
        for b in texts {
            assert_eq!(fuzzy_match(a, b), fuzzy_match(b, a));
        }
    }
}

#[test]
fn name_similarity_scores() {
    assert_eq!(score_name_similarity("Dodge", "dodge"), 75);
    assert_eq!(score_name_similarity("Power-Attack", "power attack"), 65);
    assert_eq!(score_name_similarity("Power Attack", "Improved Power Attack"), 40);
    assert_eq!(score_name_similarity("Dodge", "Alertness"), 0);
    assert_eq!(score_name_similarity("", "Alertness"), 0);
    assert_eq!(score_name_similarity("", ""), 75);
    assert_eq!(score_name_similarity("--", "**"), 0);
}

#[test]
fn name_similarity_is_symmetric_on_examples() {
    let names = ["Dodge", "dodge", "Power Attack", "Improved Power-Attack", ""];
    for a in names {
        for b in names {
            assert_eq!(score_name_similarity(a, b), score_name_similarity(b, a));
        }
    }
}

#[test]
fn case_folding() {
    assert!(eq_ignore_ascii_case("PCGen", "pcgen"));
    assert!(!eq_ignore_ascii_case("pcgen", "pcgen2"));
    assert!(!eq_ignore_ascii_case("é", "É"));
    assert_eq!(to_ascii_lowercase("ABC-déF"), "abc-déf");
}

#[test]
fn substring_search() {
    let hay: Vec<char> = "player s handbook".chars().collect();
    let yes: Vec<char> = "s hand".chars().collect();
    let no: Vec<char> = "hands".chars().collect();
    let empty: Vec<char> = Vec::new();
    assert!(contains_chars(&hay, &yes));
    assert!(!contains_chars(&hay, &no));
    assert!(contains_chars(&hay, &empty));
    assert!(!contains_chars(&empty, &yes));
}

#[test]
fn format_keys() {
    assert_eq!(format_id_key(&FormatId::ArtisanToml), "artisan_toml");
    assert_eq!(format_id_key(&FormatId::Pcgen), "pcgen");
    assert_eq!(format_id_key(&FormatId::Herolab), "herolab");
    assert_eq!(format_id_key(&FormatId::Hlo), "hlo");
    assert_eq!(format_id_key(&FormatId::Foundry), "foundry");
    assert_eq!(format_id_key(&FormatId::Other("Roll20".to_string())), "other:roll20");
}

#[test]
fn external_id_keys() {
    let id = ExternalId {
        format: FormatId::Pcgen,
        namespace: Some("LST".to_string()),
        value: "Alertness@77".to_string(),
    };
    assert_eq!(external_id_key(&id), "pcgen|lst|alertness@77");
    let bare = ExternalId { format: FormatId::Herolab, namespace: None, value: "abc".to_string() };
    assert_eq!(external_id_key(&bare), "herolab||abc");
    let upper = ExternalId {
        format: FormatId::Pcgen,
        namespace: Some("lst".to_string()),
        value: "ALERTNESS@77".to_string(),
    };
    assert_eq!(external_id_key(&upper), external_id_key(&id));
}

fn candidate(confidence: u32, reason: &str) -> MatchCandidate {
    MatchCandidate { id: CanonicalId::new(), confidence, reason: reason.to_string() }
}

#[test]
fn scoring_sorts_stably_by_descending_confidence() {
    let input = vec![
        candidate(60, "a"),
        candidate(90, "b"),
        candidate(60, "c"),
        candidate(100, "d"),
        candidate(90, "e"),
    ];
    let query = MatchQuery {
        display_name: Some("x".to_string()),
        kind_hint: None,
        source_hint: None,
        game_system_hint: None,
    };
    let out = score_candidates(&query, &input);
    let reasons: Vec<&str> = out.iter().map(|c| c.reason.as_str()).collect();
    assert_eq!(reasons, vec!["d", "b", "e", "a", "c"]);
    assert_eq!(out[0].id, input[3].id);
}

#[test]
fn scoring_without_display_name_keeps_order() {
    let input = vec![candidate(60, "a"), candidate(90, "b"), candidate(75, "c")];
    let query = MatchQuery {
        display_name: None,
        kind_hint: Some("k".to_string()),
        source_hint: None,
        game_system_hint: None,
    };
    let out = score_candidates(&query, &input);
    let reasons: Vec<&str> = out.iter().map(|c| c.reason.as_str()).collect();
    assert_eq!(reasons, vec!["a", "b", "c"]);
}

#[test]
fn canonical_ids_are_version_4_uuids() {
    for _ in 0..16 {
        let id = CanonicalId::new();
        assert_eq!((id.0 >> 76) & 0xf, 4);
        assert_eq!((id.0 >> 62) & 0x3, 2);
    }
    assert_ne!(CanonicalId::new(), CanonicalId::new());
}

#[test]
fn normalize_ignores_ascii_case_on_examples() {
    for s in ["Player's Handbook", "core-RULEBOOK 2nd", "Élan Vital", ""] {
        assert_eq!(normalize_for_match(&s.to_ascii_uppercase()), normalize_for_match(s));
        assert_eq!(normalize_for_match(&s.to_ascii_lowercase()), normalize_for_match(s));
    }
}
