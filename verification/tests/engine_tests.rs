use crystal::config::{Config, InputConfig, Rule, TemplateConfig};
use crystal::dispatch::{select_next, RateState};
use crystal::engine::{process_event, ProcessOutcome};
use crystal::event::Event;
use crystal::membership::MembershipCache;
use crystal::queue::TelegramState;

fn strings(items: &[&str]) -> Vec<String> {
    items.iter().map(|s| s.to_string()).collect()
}

fn template(tgid: &str) -> TemplateConfig {
    TemplateConfig {
        tgid: tgid.to_string(),
        tg_key: "abcdef".to_string(),
        client_key: "123456".to_string(),
    }
}

fn config(rules: Vec<(&str, Rule)>) -> Config {
    Config {
        input: InputConfig { exchange_name: "events".to_string() },
        templates: vec![
            ("t".to_string(), template("11111")),
            ("u".to_string(), template("22222")),
        ],
        rules: rules.into_iter().map(|(n, r)| (n.to_string(), r)).collect(),
    }
}

fn rule(event: &[&str], nations: &[&str], regions: &[&str], queue: &str, templates: &[&str]) -> Rule {
    Rule {
        event: strings(event),
        nations: strings(nations),
        regions: strings(regions),
        queue: queue.to_string(),
        templates: strings(templates),
    }
}

fn wadmit(actor: &str, origin: &str) -> Event {
    Event::new(
        "wadmit".to_string(),
        Some(actor.to_string()),
        None,
        Some(origin.to_string()),
        None,
    )
}

#[test]
fn end_to_end_membership_patch_changes_outcome() {
    // Before the membership patch the $is_wa filter fails; after
    // notify_membership_delta inserts the actor, the same rule matches
    // and enqueues into "regional".
    let cfg = config(vec![(
        "regional-welcome",
        rule(&["admit"], &["$is_wa"], &["*"], "regional", &["t"]),
    )]);
    let mut state = TelegramState::new();
    let mut wa = MembershipCache::new();
    let event = wadmit("nationX", "regionY");

    let before = process_event(&cfg, &mut state, &wa, &event, None);
    assert_eq!(before, ProcessOutcome::NoMatch);
    assert_eq!(state.queue_pending(2), 0);

    wa.notify_membership_delta(&event);
    let after = process_event(&cfg, &mut state, &wa, &event, None);
    assert_eq!(after, ProcessOutcome::Matched { rule_index: 0, queued: true });
    assert_eq!(state.queue_pending(2), 1);

    let mut rate = RateState::new(0);
    let (sent, _) = select_next(&mut state, &mut rate, 0);
    let sent = sent.expect("regional queue had one message");
    assert_eq!(sent.nation, "nationX");
    assert_eq!(sent.tgid, "11111");
}

#[test]
fn capability_two_phase_evaluation() {
    let cfg = config(vec![(
        "recruit",
        rule(&["found"], &["$recruitment_disabled"], &["*"], "regional", &["t"]),
    )]);
    let mut state = TelegramState::new();
    let wa = MembershipCache::new();
    let event = Event::new(
        "nfound".to_string(),
        Some("newnation".to_string()),
        None,
        Some("r".to_string()),
        None,
    );

    let asked = process_event(&cfg, &mut state, &wa, &event, None);
    assert_eq!(asked, ProcessOutcome::NeedCapability);
    assert_eq!(state.queue_pending(2), 0);

    let with_answer = process_event(&cfg, &mut state, &wa, &event, Some(true));
    assert_eq!(with_answer, ProcessOutcome::Matched { rule_index: 0, queued: true });

    let other_answer = process_event(&cfg, &mut state, &wa, &event, Some(false));
    assert_eq!(other_answer, ProcessOutcome::NoMatch);
}

#[test]
fn capability_not_consulted_when_no_rule_needs_it() {
    let cfg = config(vec![(
        "plain",
        rule(&["found"], &["*"], &["*"], "regional", &["t"]),
    )]);
    let mut state = TelegramState::new();
    let wa = MembershipCache::new();
    let event = Event::new(
        "nfound".to_string(),
        Some("n".to_string()),
        None,
        Some("r".to_string()),
        None,
    );
    let r = process_event(&cfg, &mut state, &wa, &event, None);
    assert_eq!(r, ProcessOutcome::Matched { rule_index: 0, queued: true });
}

#[test]
fn first_matching_rule_wins() {
    let cfg = config(vec![
        ("never", rule(&["found"], &["not_this_one"], &["*"], "regional", &["t"])),
        ("first", rule(&["found"], &["*"], &["*"], "recruit-permanent", &["t"])),
        ("shadowed", rule(&["found"], &["*"], &["*"], "regional", &["t"])),
    ]);
    let mut state = TelegramState::new();
    let wa = MembershipCache::new();
    let event = Event::new(
        "nfound".to_string(),
        Some("n".to_string()),
        None,
        Some("r".to_string()),
        None,
    );
    let r = process_event(&cfg, &mut state, &wa, &event, None);
    assert_eq!(r, ProcessOutcome::Matched { rule_index: 1, queued: true });
    assert_eq!(state.queue_pending(0), 1);
    assert_eq!(state.queue_pending(2), 0);
}

#[test]
fn matched_rule_with_unknown_queue_enqueues_nothing() {
    let cfg = config(vec![(
        "lost",
        rule(&["found"], &["*"], &["*"], "no-such-queue", &["t"]),
    )]);
    let mut state = TelegramState::new();
    let wa = MembershipCache::new();
    let event = Event::new(
        "nfound".to_string(),
        Some("n".to_string()),
        None,
        Some("r".to_string()),
        None,
    );
    let r = process_event(&cfg, &mut state, &wa, &event, None);
    assert_eq!(r, ProcessOutcome::Matched { rule_index: 0, queued: false });
    for i in 0..3 {
        assert_eq!(state.queue_pending(i), 0);
    }
}

#[test]
fn matched_rule_without_templates_enqueues_nothing() {
    let cfg = config(vec![(
        "bare",
        rule(&["found"], &["*"], &["*"], "regional", &[]),
    )]);
    let mut state = TelegramState::new();
    let wa = MembershipCache::new();
    let event = Event::new(
        "nfound".to_string(),
        Some("n".to_string()),
        None,
        Some("r".to_string()),
        None,
    );
    let r = process_event(&cfg, &mut state, &wa, &event, None);
    assert_eq!(r, ProcessOutcome::Matched { rule_index: 0, queued: false });
    assert_eq!(state.queue_pending(2), 0);
}

#[test]
fn matched_rule_with_unresolved_template_enqueues_nothing() {
    let cfg = config(vec![(
        "dangling",
        rule(&["found"], &["*"], &["*"], "regional", &["missing"]),
    )]);
    let mut state = TelegramState::new();
    let wa = MembershipCache::new();
    let event = Event::new(
        "nfound".to_string(),
        Some("n".to_string()),
        None,
        Some("r".to_string()),
        None,
    );
    let r = process_event(&cfg, &mut state, &wa, &event, None);
    assert_eq!(r, ProcessOutcome::Matched { rule_index: 0, queued: false });
    assert_eq!(state.queue_pending(2), 0);
}

#[test]
fn template_drawn_from_the_rules_list() {
    let cfg = config(vec![(
        "either",
        rule(&["found"], &["*"], &["*"], "regional", &["t", "u"]),
    )]);
    let mut state = TelegramState::new();
    let wa = MembershipCache::new();
    let event = Event::new(
        "nfound".to_string(),
        Some("n".to_string()),
        None,
        Some("r".to_string()),
        None,
    );
    let r = process_event(&cfg, &mut state, &wa, &event, None);
    assert_eq!(r, ProcessOutcome::Matched { rule_index: 0, queued: true });
    let mut rate = RateState::new(0);
    let (sent, _) = select_next(&mut state, &mut rate, 0);
    let sent = sent.unwrap();
    assert!(sent.tgid == "11111" || sent.tgid == "22222");
}

#[test]
fn event_without_actor_enqueues_nothing() {
    let cfg = config(vec![(
        "nobody",
        rule(&["found"], &["*"], &["*"], "regional", &["t"]),
    )]);
    let mut state = TelegramState::new();
    let wa = MembershipCache::new();
    let event = Event::new("nfound".to_string(), None, None, Some("r".to_string()), None);
    let r = process_event(&cfg, &mut state, &wa, &event, None);
    assert_eq!(r, ProcessOutcome::NoMatch);
    assert_eq!(state.queue_pending(2), 0);
}
