//! The ingress pipeline's decision for one event: find the first rule,
//! in configured order, that matches; draw one of its templates at
//! random; and enqueue one telegram for the event's actor.
//!
//! The external capability check (`$recruitment_disabled`) is a network
//! round trip the embedding process performs. A first call with no
//! answer reports `NeedCapability` exactly when evaluation would
//! consult it; the caller fetches the answer and calls again.
use vstd::prelude::*;

use crate::config::{Config, Rule, RuleView, TemplateConfigView, spec_lookup_template};
use crate::event::{Event, EventTupleView, spec_translate, translate_event_category};
use crate::membership::MembershipCache;
use crate::queue::{QueueView, Telegram, TelegramState, TelegramView, spec_enqueue,
    spec_find_queue};
use crate::rules::{rule_matches_tuples, spec_rule_matches_tuples, spec_tuples_need_cap,
    tuples_need_cap};

verus! {

/// What handling one event came to.
#[derive(Debug, PartialEq, Eq, Structural)]
pub enum ProcessOutcome {
    /// Evaluation reached a capability-dependent filter and no answer
    /// was supplied; nothing was changed.
    NeedCapability,
    /// No rule matched.
    NoMatch,
    /// The rule at this position matched; `queued` tells whether a
    /// telegram was actually enqueued.
    Matched { rule_index: usize, queued: bool },
}

/// Relies on rand::random_range over `0..n`: the result lies in the
/// range, which is non-empty.
#[verifier::external_body]
fn random_index(n: usize) -> (r: usize)
    requires
        n > 0,
    ensures
        r < n,
{
    rand::random_range(0..n)
}

/// The configured rules, in declared order.
pub open spec fn spec_rule_seq(c: &Config) -> Seq<RuleView> {
    c.rules.deep_view().map_values(|p: (Seq<char>, RuleView)| p.1)
}

/// Whether evaluating the rules in order, against these transitions,
/// reaches a capability consultation before a rule settles the event.
pub open spec fn spec_rules_need_cap(
    rules: Seq<RuleView>,
    ts: Seq<EventTupleView>,
    wa: Set<Seq<char>>,
) -> bool
    decreases rules.len(),
{
    rules.len() > 0 && (spec_tuples_need_cap(rules[0], ts, wa) || (
    !spec_rule_matches_tuples(rules[0], ts, wa, false) && spec_rules_need_cap(
        rules.drop_first(),
        ts,
        wa,
    )))
}

/// The first rule, in declared order, that matches.
pub open spec fn spec_first_matching_rule(
    rules: Seq<RuleView>,
    ts: Seq<EventTupleView>,
    wa: Set<Seq<char>>,
    recruitment_disabled: bool,
) -> Option<int>
    decreases rules.len(),
{
    if rules.len() == 0 {
        None
    } else if spec_rule_matches_tuples(rules[0], ts, wa, recruitment_disabled) {
        Some(0int)
    } else {
        match spec_first_matching_rule(rules.drop_first(), ts, wa, recruitment_disabled) {
            Some(i) => Some(i + 1),
            None => None,
        }
    }
}

pub proof fn lemma_first_matching_rule(
    rules: Seq<RuleView>,
    ts: Seq<EventTupleView>,
    wa: Set<Seq<char>>,
    recruitment_disabled: bool,
)
    ensures
        match spec_first_matching_rule(rules, ts, wa, recruitment_disabled) {
            Some(i) => 0 <= i < rules.len() && spec_rule_matches_tuples(
                rules[i],
                ts,
                wa,
                recruitment_disabled,
            ) && forall|j: int|
                0 <= j < i ==> !spec_rule_matches_tuples(rules[j], ts, wa,
                recruitment_disabled),
            None => forall|j: int|
                0 <= j < rules.len() ==> !spec_rule_matches_tuples(rules[j], ts, wa,
                recruitment_disabled),
        },
    decreases rules.len(),
{
    if rules.len() > 0 && !spec_rule_matches_tuples(rules[0], ts, wa, recruitment_disabled) {
        let rest = rules.drop_first();
        lemma_first_matching_rule(rest, ts, wa, recruitment_disabled);
        assert forall|j: int| 0 <= j < rest.len() implies rest[j] == rules[j + 1] by {}
        match spec_first_matching_rule(rest, ts, wa, recruitment_disabled) {
            Some(i) => {
                assert(rules[i + 1] == rest[i]);
                assert forall|j: int| 0 <= j < i + 1 implies !spec_rule_matches_tuples(
                    rules[j],
                    ts,
                    wa,
                    recruitment_disabled,
                ) by {
                    if j > 0 {
                        assert(rest[j - 1] == rules[j]);
                    }
                }
            },
            None => {
                assert forall|j: int|
                    0 <= j < rules.len() implies !spec_rule_matches_tuples(
                    rules[j],
                    ts,
                    wa,
                    recruitment_disabled,
                ) by {
                    if j > 0 {
                        assert(rest[j - 1] == rules[j]);
                    }
                }
            },
        }
    }
}

/// What a match leaves behind: one telegram for the actor, built from
/// one of the rule's templates, appended to the rule's queue — or the
/// queues untouched when the rule names no templates, the event has no
/// actor, the drawn name resolves to nothing, or the queue is unknown.
pub open spec fn spec_enqueue_outcome(
    table: Seq<(Seq<char>, TemplateConfigView)>,
    qs_before: Seq<QueueView>,
    qs_after: Seq<QueueView>,
    rule: RuleView,
    actor: Option<Seq<char>>,
    queued: bool,
) -> bool {
    if rule.templates.len() == 0 || actor is None {
        !queued && qs_after == qs_before
    } else {
        exists|k: int|
            #![trigger rule.templates[k]]
            0 <= k < rule.templates.len() && (match spec_lookup_template(
                table,
                rule.templates[k],
            ) {
                None => !queued && qs_after == qs_before,
                Some(tpl) => (match spec_find_queue(qs_before, rule.queue) {
                    Some(qi) => queued && qs_after == qs_before.update(
                        qi,
                        spec_enqueue(
                            qs_before[qi],
                            (TelegramView {
                                nation: actor->Some_0,
                                tgid: tpl.tgid,
                                tg_key: tpl.tg_key,
                                client_key: tpl.client_key,
                            }),
                        ),
                    ),
                    None => !queued && qs_after == qs_before,
                }),
            })
    }
}

/// Draws one template name of the matched rule at random, resolves it
/// against the template table, and enqueues one telegram for the
/// event's actor into the rule's queue. Nothing changes when the rule
/// names no templates, the event has no actor, the drawn name resolves
/// to nothing, or the rule aims at an unknown queue.
fn enqueue_for_rule(
    config: &Config,
    state: &mut TelegramState,
    rule: &Rule,
    event: &Event,
) -> (queued: bool)
    ensures
        spec_enqueue_outcome(
            config.templates.deep_view(),
            old(state)@,
            final(state)@,
            rule@,
            event@.actor,
            queued,
        ),
{
    if rule.templates.len() == 0 {
        return false;
    }
    let k = random_index(rule.templates.len());
    proof {
        assert(rule@.templates[k as int] == rule.templates@[k as int]@);
    }
    let tpl_opt = crate::config::lookup_template(
        &config.templates,
        rule.templates[k].as_str(),
    );
    match (tpl_opt, &event.actor) {
        (Some(tpl), Some(nation)) => {
            let tg = Telegram::new(
                nation.clone(),
                tpl.tgid.clone(),
                tpl.tg_key.clone(),
                tpl.client_key.clone(),
            );
            proof {
                assert(event@.actor == Some(nation@));
                assert(spec_lookup_template(
                    config.templates.deep_view(),
                    rule@.templates[k as int],
                ) == Some(tpl@));
            }
            let queued = state.add_to_queue(rule.queue.as_str(), tg);
            proof {
                assert(tg@ == (TelegramView {
                    nation: event@.actor->Some_0,
                    tgid: tpl@.tgid,
                    tg_key: tpl@.tg_key,
                    client_key: tpl@.client_key,
                }));
                assert(0 <= k as int && (k as int) < rule@.templates.len());
            }
            queued
        },
        _ => {
            proof {
                if event@.actor is Some {
                    assert(spec_lookup_template(
                        config.templates.deep_view(),
                        rule@.templates[k as int],
                    ) is None);
                    assert(0 <= k as int && (k as int) < rule@.templates.len());
                }
            }
            false
        },
    }
}

/// Handles one event: the first matching rule wins, one of its
/// templates is drawn at random, and one telegram for the event's
/// actor goes to the rule's queue. `cap` carries the capability answer
/// when the caller has fetched it; without one, evaluation stops at
/// the first capability-dependent filter it would consult.
pub fn process_event(
    config: &Config,
    state: &mut TelegramState,
    wa: &MembershipCache,
    event: &Event,
    cap: Option<bool>,
) -> (r: ProcessOutcome)
    ensures
        cap is None && spec_rules_need_cap(
            spec_rule_seq(config),
            spec_translate(event@),
            wa@,
        ) ==> r == ProcessOutcome::NeedCapability && final(state)@ == old(state)@,
        ({
            let rv = spec_rule_seq(config);
            let ts = spec_translate(event@);
            let rd = match cap {
                Some(b) => b,
                None => false,
            };
            (cap is Some || !spec_rules_need_cap(rv, ts, wa@)) ==> match
                spec_first_matching_rule(rv, ts, wa@, rd) {
                None => r == ProcessOutcome::NoMatch && final(state)@ == old(state)@,
                Some(i) => r matches ProcessOutcome::Matched { rule_index, queued }
                    && rule_index as int == i && spec_enqueue_outcome(
                    config.templates.deep_view(),
                    old(state)@,
                    final(state)@,
                    rv[i],
                    event@.actor,
                    queued,
                ),
            }
        }),
{
    let ghost rv = spec_rule_seq(config);
    let tuples = translate_event_category(event);
    let ghost tv = tuples.deep_view();
    let rd = match cap {
        Some(b) => b,
        None => false,
    };
    let cap_missing = cap.is_none();
    proof {
        lemma_first_matching_rule(rv, tv, wa@, rd);
        assert(rv.skip(0) =~= rv);
    }
    let n = config.rules.len();
    let mut i: usize = 0;
    while i < n
        invariant
            rv == spec_rule_seq(config),
            tv == tuples.deep_view(),
            tv == spec_translate(event@),
            n == config.rules@.len(),
            rv.len() == n,
            i <= n,
            cap_missing == (cap is None),
            rd == (match cap {
                Some(b) => b,
                None => false,
            }),
            state@ == old(state)@,
            forall|j: int|
                0 <= j < i ==> !spec_rule_matches_tuples(rv[j], tv, wa@, rd),
            cap_missing ==> spec_rules_need_cap(rv, tv, wa@) == spec_rules_need_cap(
                rv.skip(i as int),
                tv,
                wa@,
            ),
            match spec_first_matching_rule(rv, tv, wa@, rd) {
                Some(k) => 0 <= k < n && spec_rule_matches_tuples(rv[k], tv, wa@, rd)
                    && forall|j: int|
                    0 <= j < k ==> !spec_rule_matches_tuples(rv[j], tv, wa@, rd),
                None => forall|j: int|
                    0 <= j < n ==> !spec_rule_matches_tuples(rv[j], tv, wa@, rd),
            },
        decreases n - i,
    {
        let rule = &config.rules[i].1;
        proof {
            assert(config.rules.deep_view()[i as int] == (
                config.rules@[i as int].0@,
                config.rules@[i as int].1@,
            ));
            assert(rv[i as int] == rule@);
            assert(rv.skip(i as int)[0] == rv[i as int]);
        }
        if cap_missing {
            if tuples_need_cap(rule, &tuples, wa) {
                proof {
                    assert(spec_rules_need_cap(rv.skip(i as int), tv, wa@));
                }
                return ProcessOutcome::NeedCapability;
            }
        }
        if rule_matches_tuples(rule, &tuples, wa, rd) {
            proof {
                assert(spec_first_matching_rule(rv, tv, wa@, rd) is Some);
                let k = spec_first_matching_rule(rv, tv, wa@, rd)->Some_0;
                assert(k == i as int);
                if cap_missing {
                    assert(!spec_tuples_need_cap(rv[i as int], tv, wa@));
                    assert(spec_rule_matches_tuples(rv[i as int], tv, wa@, false));
                    assert(!spec_rules_need_cap(rv.skip(i as int), tv, wa@));
                }
            }
            let queued = enqueue_for_rule(config, state, rule, event);
            return ProcessOutcome::Matched { rule_index: i, queued };
        }
        proof {
            assert(rv.skip(i as int).drop_first() =~= rv.skip(i as int + 1));
        }
        i = i + 1;
    }
    proof {
        assert(rv.skip(n as int).len() == 0);
    }
    ProcessOutcome::NoMatch
}

} // verus!
