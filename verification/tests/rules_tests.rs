use crystal::config::Rule;
use crystal::event::{translate_event_category, Event};
use crystal::membership::MembershipCache;
use crystal::pattern::pattern_filter_match;
use crystal::rules::match_rule;

fn strings(items: &[&str]) -> Vec<String> {
    items.iter().map(|s| s.to_string()).collect()
}

fn rule(event: &[&str], nations: &[&str], regions: &[&str]) -> Rule {
    Rule {
        event: strings(event),
        nations: strings(nations),
        regions: strings(regions),
        queue: "regional".to_string(),
        templates: strings(&["t"]),
    }
}

fn found_event(actor: &str, origin: &str) -> Event {
    Event::new(
        "nfound".to_string(),
        Some(actor.to_string()),
        None,
        Some(origin.to_string()),
        None,
    )
}

#[test]
fn pattern_match_and_invalid_pattern() {
    assert!(pattern_filter_match("^a", "abc"));
    assert!(!pattern_filter_match("^a", "xyz"));
    // An invalid pattern never matches and never panics.
    assert!(!pattern_filter_match("[", "anything"));
}

#[test]
fn wildcard_lists_match_everything() {
    let r = rule(&["found"], &["*"], &["*"]);
    let wa = MembershipCache::new();
    assert!(match_rule(&found_event("someone", "somewhere"), &r, &wa, false));
    assert!(match_rule(&found_event("else", "elsewhere"), &r, &wa, false));
}

#[test]
fn empty_filter_list_never_matches() {
    let r = rule(&["found"], &[], &["*"]);
    let wa = MembershipCache::new();
    assert!(!match_rule(&found_event("someone", "somewhere"), &r, &wa, false));
}

#[test]
fn category_must_be_listed() {
    let r = rule(&["refound"], &["*"], &["*"]);
    let wa = MembershipCache::new();
    assert!(!match_rule(&found_event("someone", "somewhere"), &r, &wa, false));
}

#[test]
fn exclude_dominates_include() {
    let r = rule(&["found"], &["*", "!foo"], &["*"]);
    let wa = MembershipCache::new();
    assert!(!match_rule(&found_event("foo", "somewhere"), &r, &wa, false));
    assert!(match_rule(&found_event("bar", "somewhere"), &r, &wa, false));
}

#[test]
fn invalid_pattern_entry_degrades_without_blocking_siblings() {
    // The broken entry evaluates to no-match; the sibling wildcard
    // still carries the list.
    let r = rule(&["found"], &["$re:[", "*"], &["*"]);
    let wa = MembershipCache::new();
    assert!(match_rule(&found_event("anyone", "anywhere"), &r, &wa, false));
    // Alone, the broken entry can never include anything.
    let r = rule(&["found"], &["$re:["], &["*"]);
    assert!(!match_rule(&found_event("anyone", "anywhere"), &r, &wa, false));
    // A negated broken entry never excludes anything either.
    let r = rule(&["found"], &["*", "!$re:["], &["*"]);
    assert!(match_rule(&found_event("anyone", "anywhere"), &r, &wa, false));
}

#[test]
fn literal_entries_compare_exactly() {
    let r = rule(&["found"], &["testlandia"], &["*"]);
    let wa = MembershipCache::new();
    assert!(match_rule(&found_event("testlandia", "x"), &r, &wa, false));
    assert!(!match_rule(&found_event("testlandia2", "x"), &r, &wa, false));
}

#[test]
fn regex_entries_match_value() {
    let r = rule(&["found"], &["$re:^test"], &["*"]);
    let wa = MembershipCache::new();
    assert!(match_rule(&found_event("testlandia", "x"), &r, &wa, false));
    assert!(!match_rule(&found_event("nottest", "x"), &r, &wa, false));
}

#[test]
fn numbered_puppet_pattern() {
    let r = rule(&["found"], &["$numbered_puppet"], &["*"]);
    let wa = MembershipCache::new();
    assert!(match_rule(&found_event("farm12", "x"), &r, &wa, false));
    assert!(!match_rule(&found_event("farm", "x"), &r, &wa, false));
}

#[test]
fn roman_puppet_pattern() {
    let r = rule(&["found"], &["$roman_puppet"], &["*"]);
    let wa = MembershipCache::new();
    assert!(match_rule(&found_event("farm_xiv", "x"), &r, &wa, false));
    assert!(!match_rule(&found_event("farm", "x"), &r, &wa, false));
}

#[test]
fn is_wa_consults_membership() {
    let r = rule(&["found"], &["$is_wa"], &["*"]);
    let mut wa = MembershipCache::new();
    assert!(!match_rule(&found_event("member", "x"), &r, &wa, false));
    wa.insert("member".to_string());
    assert!(match_rule(&found_event("member", "x"), &r, &wa, false));
    assert!(!match_rule(&found_event("stranger", "x"), &r, &wa, false));
}

#[test]
fn recruitment_disabled_uses_supplied_answer() {
    let r = rule(&["found"], &["$recruitment_disabled"], &["*"]);
    let wa = MembershipCache::new();
    assert!(match_rule(&found_event("n", "x"), &r, &wa, true));
    assert!(!match_rule(&found_event("n", "x"), &r, &wa, false));
    // Negated form inverts it.
    let r = rule(&["found"], &["!$recruitment_disabled", "*"], &["*"]);
    assert!(!match_rule(&found_event("n", "x"), &r, &wa, true));
    assert!(match_rule(&found_event("n", "x"), &r, &wa, false));
}

#[test]
fn unknown_commands_never_match() {
    let r = rule(&["found"], &["$mystery"], &["*"]);
    let wa = MembershipCache::new();
    assert!(!match_rule(&found_event("n", "x"), &r, &wa, false));
    // Recipient-only commands are unknown in a region filter list.
    let r = rule(&["found"], &["*"], &["$is_wa"]);
    assert!(!match_rule(&found_event("n", "x"), &r, &wa, false));
}

#[test]
fn region_filters_evaluate_independently() {
    let r = rule(&["found"], &["*"], &["the_east"]);
    let wa = MembershipCache::new();
    assert!(match_rule(&found_event("n", "the_east"), &r, &wa, false));
    assert!(!match_rule(&found_event("n", "the_west"), &r, &wa, false));
    let r = rule(&["found"], &["*"], &["$re:^the_"]);
    assert!(match_rule(&found_event("n", "the_west"), &r, &wa, false));
    assert!(!match_rule(&found_event("n", "north"), &r, &wa, false));
}

#[test]
fn move_event_translates_to_two_transitions() {
    let e = Event::new(
        "move".to_string(),
        Some("mover".to_string()),
        None,
        Some("origin_region".to_string()),
        Some("dest_region".to_string()),
    );
    let tuples = translate_event_category(&e);
    assert_eq!(tuples.len(), 2);
    assert_eq!(tuples[0].category, "move_from");
    assert_eq!(tuples[0].region.as_deref(), Some("origin_region"));
    assert_eq!(tuples[1].category, "move_to");
    assert_eq!(tuples[1].region.as_deref(), Some("dest_region"));

    let wa = MembershipCache::new();
    let arriving = rule(&["move_to"], &["*"], &["dest_region"]);
    assert!(match_rule(&e, &arriving, &wa, false));
    let leaving = rule(&["move_from"], &["*"], &["dest_region"]);
    assert!(!match_rule(&e, &leaving, &wa, false));
}

#[test]
fn unknown_category_translates_to_nothing() {
    let e = Event::new("weather".to_string(), Some("n".to_string()), None, None, None);
    assert!(translate_event_category(&e).is_empty());
    let r = rule(&["weather"], &["*"], &["*"]);
    let wa = MembershipCache::new();
    assert!(!match_rule(&e, &r, &wa, false));
}

#[test]
fn missing_value_fails_the_list() {
    // A wildcard recipient filter still needs a recipient to test.
    let e = Event::new("nfound".to_string(), None, None, Some("r".to_string()), None);
    let r = rule(&["found"], &["*"], &["*"]);
    let wa = MembershipCache::new();
    assert!(!match_rule(&e, &r, &wa, false));
}

#[test]
fn resign_and_refound_translations() {
    let wa = MembershipCache::new();
    let resign = Event::new(
        "wresign".to_string(),
        Some("n".to_string()),
        None,
        Some("r".to_string()),
        None,
    );
    assert!(match_rule(&resign, &rule(&["resign"], &["*"], &["*"]), &wa, false));
    assert!(!match_rule(&resign, &rule(&["wresign"], &["*"], &["*"]), &wa, false));

    let refound = Event::new(
        "nrefound".to_string(),
        Some("n".to_string()),
        None,
        Some("r".to_string()),
        None,
    );
    assert!(match_rule(&refound, &rule(&["refound"], &["*"], &["*"]), &wa, false));
}
