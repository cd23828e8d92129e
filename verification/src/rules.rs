//! The rule engine: decides whether an event matches a rule.
//!
//! A filter entry is a literal (exact match), the wildcard `*`, a
//! negated form `!X`, or a command `$cmd[:arg]`. Within one list the
//! non-negated entries are OR-ed into an include signal and the negated
//! entries into an exclude signal; the list passes when something
//! included and nothing excluded the value. A malformed pattern or an
//! unknown command never aborts evaluation: the entry just fails to
//! match.
use vstd::prelude::*;

use crate::config::{Rule, RuleView};
use crate::event::{Event, EventTuple, EventTupleView, EventView, spec_translate,
    translate_event_category};
use crate::membership::MembershipCache;
use crate::pattern::{pattern_filter_match, spec_pattern_filter};
use crate::strutil::{first_char_is, starts_with_str, str_eq, tail_from};

verus! {

/// Which of a rule's two filter lists an entry belongs to. The command
/// forms beyond `$re:` exist for recipient filters only.
#[derive(Clone, Copy)]
pub enum FilterScope {
    Nation,
    Region,
}

/// What a `$`-command means for a value under test. Unknown commands
/// never match.
pub open spec fn spec_command_pred(
    scope: FilterScope,
    cmd: Seq<char>,
    value: Seq<char>,
    wa: Set<Seq<char>>,
    recruitment_disabled: bool,
) -> bool {
    if cmd.len() >= 3 && cmd.subrange(0, 3) == "re:"@ {
        spec_pattern_filter(cmd.skip(3), value)
    } else if scope is Nation && cmd == "numbered_puppet"@ {
        spec_pattern_filter("^[0-9a-z_-]+[0-9]+$"@, value)
    } else if scope is Nation && cmd == "roman_puppet"@ {
        spec_pattern_filter(
            "^[0-9a-z_-]+_m{0,4}(cm|cd|d?c{0,3})(xc|xl|l?x{0,3})(ix|iv|v?i{0,3})$"@,
            value,
        )
    } else if scope is Nation && cmd == "is_wa"@ {
        wa.contains(value)
    } else if scope is Nation && cmd == "recruitment_disabled"@ {
        recruitment_disabled
    } else {
        false
    }
}

/// An entry's underlying predicate: a command when it starts with `$`,
/// an exact comparison otherwise.
pub open spec fn spec_entry_pred(
    scope: FilterScope,
    arg: Seq<char>,
    value: Seq<char>,
    wa: Set<Seq<char>>,
    recruitment_disabled: bool,
) -> bool {
    if arg.len() > 0 && arg[0] == '$' {
        spec_command_pred(scope, arg.skip(1), value, wa, recruitment_disabled)
    } else {
        arg == value
    }
}

/// Whether an entry contributes to the include signal.
pub open spec fn spec_entry_includes(
    scope: FilterScope,
    arg: Seq<char>,
    value: Seq<char>,
    wa: Set<Seq<char>>,
    recruitment_disabled: bool,
) -> bool {
    arg == "*"@ || (!(arg.len() > 0 && arg[0] == '!') && spec_entry_pred(
        scope,
        arg,
        value,
        wa,
        recruitment_disabled,
    ))
}

/// Whether an entry contributes to the exclude signal.
pub open spec fn spec_entry_excludes(
    scope: FilterScope,
    arg: Seq<char>,
    value: Seq<char>,
    wa: Set<Seq<char>>,
    recruitment_disabled: bool,
) -> bool {
    arg != "*"@ && arg.len() > 0 && arg[0] == '!' && spec_entry_pred(
        scope,
        arg.skip(1),
        value,
        wa,
        recruitment_disabled,
    )
}

/// Whether one of the first `upto` entries includes the value.
pub open spec fn spec_any_includes(
    scope: FilterScope,
    args: Seq<Seq<char>>,
    upto: int,
    value: Seq<char>,
    wa: Set<Seq<char>>,
    recruitment_disabled: bool,
) -> bool {
    exists|j: int|
        0 <= j < upto && spec_entry_includes(
            scope,
            args[j],
            value,
            wa,
            recruitment_disabled,
        )
}

/// Whether one of the first `upto` entries excludes the value.
pub open spec fn spec_any_excludes(
    scope: FilterScope,
    args: Seq<Seq<char>>,
    upto: int,
    value: Seq<char>,
    wa: Set<Seq<char>>,
    recruitment_disabled: bool,
) -> bool {
    exists|j: int|
        0 <= j < upto && spec_entry_excludes(
            scope,
            args[j],
            value,
            wa,
            recruitment_disabled,
        )
}

/// Whether a whole filter list passes: an absent value never passes,
/// and exclusion dominates inclusion.
pub open spec fn spec_list_passes(
    scope: FilterScope,
    args: Seq<Seq<char>>,
    value: Option<Seq<char>>,
    wa: Set<Seq<char>>,
    recruitment_disabled: bool,
) -> bool {
    match value {
        None => false,
        Some(v) => spec_any_includes(
            scope,
            args,
            args.len() as int,
            v,
            wa,
            recruitment_disabled,
        ) && !spec_any_excludes(
            scope,
            args,
            args.len() as int,
            v,
            wa,
            recruitment_disabled,
        ),
    }
}

/// Accumulates the include and exclude signals of one filter list.
pub struct Match {
    pub matched: bool,
    pub excluded: bool,
}

impl Match {
    pub fn new() -> (r: Match)
        ensures
            !r.matched && !r.excluded,
    {
        Match { matched: false, excluded: false }
    }

    pub fn match_if(&mut self, matched: bool)
        ensures
            final(self).matched == (old(self).matched || matched),
            final(self).excluded == old(self).excluded,
    {
        self.matched = self.matched || matched;
    }

    pub fn exclude_if(&mut self, excluded: bool)
        ensures
            final(self).matched == old(self).matched,
            final(self).excluded == (old(self).excluded || excluded),
    {
        self.excluded = self.excluded || excluded;
    }

    pub fn matches(&self) -> (r: bool)
        ensures
            r == (self.matched && !self.excluded),
    {
        self.matched && !self.excluded
    }
}

fn eval_command(
    scope: FilterScope,
    cmd: &str,
    value: &str,
    wa: &MembershipCache,
    recruitment_disabled: bool,
) -> (r: bool)
    ensures
        r == spec_command_pred(scope, cmd@, value@, wa@, recruitment_disabled),
{
    proof {
        reveal_strlit("re:");
    }
    if starts_with_str(cmd, "re:") {
        let pat = tail_from(cmd, 3);
        pattern_filter_match(pat, value)
    } else {
        match scope {
            FilterScope::Nation => {
                if str_eq(cmd, "numbered_puppet") {
                    pattern_filter_match("^[0-9a-z_-]+[0-9]+$", value)
                } else if str_eq(cmd, "roman_puppet") {
                    pattern_filter_match(
                        "^[0-9a-z_-]+_m{0,4}(cm|cd|d?c{0,3})(xc|xl|l?x{0,3})(ix|iv|v?i{0,3})$",
                        value,
                    )
                } else if str_eq(cmd, "is_wa") {
                    wa.contains(value)
                } else if str_eq(cmd, "recruitment_disabled") {
                    recruitment_disabled
                } else {
                    false
                }
            },
            FilterScope::Region => false,
        }
    }
}

fn eval_pred(
    scope: FilterScope,
    arg: &str,
    value: &str,
    wa: &MembershipCache,
    recruitment_disabled: bool,
) -> (r: bool)
    ensures
        r == spec_entry_pred(scope, arg@, value@, wa@, recruitment_disabled),
{
    if first_char_is(arg, '$') {
        let cmd = tail_from(arg, 1);
        eval_command(scope, cmd, value, wa, recruitment_disabled)
    } else {
        str_eq(arg, value)
    }
}

/// Folds one filter entry into the accumulator.
fn apply_entry(
    scope: FilterScope,
    arg: &str,
    value: &str,
    wa: &MembershipCache,
    recruitment_disabled: bool,
    m: &mut Match,
)
    ensures
        final(m).matched == (old(m).matched || spec_entry_includes(
            scope,
            arg@,
            value@,
            wa@,
            recruitment_disabled,
        )),
        final(m).excluded == (old(m).excluded || spec_entry_excludes(
            scope,
            arg@,
            value@,
            wa@,
            recruitment_disabled,
        )),
{
    if str_eq(arg, "*") {
        m.match_if(true);
    } else if first_char_is(arg, '!') {
        let stripped = tail_from(arg, 1);
        let p = eval_pred(scope, stripped, value, wa, recruitment_disabled);
        m.exclude_if(p);
    } else {
        let p = eval_pred(scope, arg, value, wa, recruitment_disabled);
        m.match_if(p);
    }
}

/// Evaluates one filter list against a value that may be absent.
pub fn eval_filter_list(
    scope: FilterScope,
    args: &Vec<String>,
    value: &Option<String>,
    wa: &MembershipCache,
    recruitment_disabled: bool,
) -> (r: bool)
    ensures
        r == spec_list_passes(
            scope,
            args.deep_view(),
            value.deep_view(),
            wa@,
            recruitment_disabled,
        ),
{
    match value {
        None => false,
        Some(v) => {
            let ghost argv = args.deep_view();
            let mut m = Match::new();
            let n = args.len();
            let mut i: usize = 0;
            while i < n
                invariant
                    argv == args.deep_view(),
                    n == args@.len(),
                    i <= n,
                    m.matched == spec_any_includes(
                        scope,
                        argv,
                        i as int,
                        v@,
                        wa@,
                        recruitment_disabled,
                    ),
                    m.excluded == spec_any_excludes(
                        scope,
                        argv,
                        i as int,
                        v@,
                        wa@,
                        recruitment_disabled,
                    ),
                decreases n - i,
            {
                let ghost m0 = m;
                proof {
                    assert(argv[i as int] == args@[i as int]@);
                }
                apply_entry(
                    scope,
                    args[i].as_str(),
                    v.as_str(),
                    wa,
                    recruitment_disabled,
                    &mut m,
                );
                proof {
                    let inc_here = spec_entry_includes(
                        scope,
                        argv[i as int],
                        v@,
                        wa@,
                        recruitment_disabled,
                    );
                    let exc_here = spec_entry_excludes(
                        scope,
                        argv[i as int],
                        v@,
                        wa@,
                        recruitment_disabled,
                    );
                    assert(m.matched == (m0.matched || inc_here));
                    assert(m.excluded == (m0.excluded || exc_here));
                    assert(m.matched == spec_any_includes(
                        scope,
                        argv,
                        i as int + 1,
                        v@,
                        wa@,
                        recruitment_disabled,
                    )) by {
                        if m.matched {
                            if m0.matched {
                                let j = choose|j: int|
                                    0 <= j < i && spec_entry_includes(
                                        scope,
                                        argv[j],
                                        v@,
                                        wa@,
                                        recruitment_disabled,
                                    );
                                assert(spec_entry_includes(
                                    scope,
                                    argv[j],
                                    v@,
                                    wa@,
                                    recruitment_disabled,
                                ));
                            } else {
                                assert(spec_entry_includes(
                                    scope,
                                    argv[i as int],
                                    v@,
                                    wa@,
                                    recruitment_disabled,
                                ));
                            }
                        } else {
                            assert forall|j: int|
                                0 <= j < i as int + 1 implies !spec_entry_includes(
                                scope,
                                argv[j],
                                v@,
                                wa@,
                                recruitment_disabled,
                            ) by {
                                if j < i as int {
                                    assert(!spec_any_includes(
                                        scope,
                                        argv,
                                        i as int,
                                        v@,
                                        wa@,
                                        recruitment_disabled,
                                    ));
                                }
                            }
                        }
                    }
                    assert(m.excluded == spec_any_excludes(
                        scope,
                        argv,
                        i as int + 1,
                        v@,
                        wa@,
                        recruitment_disabled,
                    )) by {
                        if m.excluded {
                            if m0.excluded {
                                let j = choose|j: int|
                                    0 <= j < i && spec_entry_excludes(
                                        scope,
                                        argv[j],
                                        v@,
                                        wa@,
                                        recruitment_disabled,
                                    );
                                assert(spec_entry_excludes(
                                    scope,
                                    argv[j],
                                    v@,
                                    wa@,
                                    recruitment_disabled,
                                ));
                            } else {
                                assert(spec_entry_excludes(
                                    scope,
                                    argv[i as int],
                                    v@,
                                    wa@,
                                    recruitment_disabled,
                                ));
                            }
                        } else {
                            assert forall|j: int|
                                0 <= j < i as int + 1 implies !spec_entry_excludes(
                                scope,
                                argv[j],
                                v@,
                                wa@,
                                recruitment_disabled,
                            ) by {
                                if j < i as int {
                                    assert(!spec_any_excludes(
                                        scope,
                                        argv,
                                        i as int,
                                        v@,
                                        wa@,
                                        recruitment_disabled,
                                    ));
                                }
                            }
                        }
                    }
                }
                i = i + 1;
            }
            m.matches()
        },
    }
}

/// Law: a filter list made only of `*` entries matches every present
/// value of its kind.
pub proof fn lemma_wildcard_list_matches(
    scope: FilterScope,
    args: Seq<Seq<char>>,
    value: Seq<char>,
    wa: Set<Seq<char>>,
    recruitment_disabled: bool,
)
    requires
        args.len() > 0,
        forall|i: int| 0 <= i < args.len() ==> args[i] == "*"@,
    ensures
        spec_list_passes(scope, args, Some(value), wa, recruitment_disabled),
{
    assert(spec_entry_includes(scope, args[0], value, wa, recruitment_disabled));
    assert(spec_any_includes(
        scope,
        args,
        args.len() as int,
        value,
        wa,
        recruitment_disabled,
    ));
    assert forall|j: int| 0 <= j < args.len() implies !spec_entry_excludes(
        scope,
        args[j],
        value,
        wa,
        recruitment_disabled,
    ) by {}
}

/// Law: exclusion dominates inclusion. A list holding a negated entry
/// `!X` never passes a value on which X's predicate holds, whatever the
/// other entries say.
pub proof fn lemma_exclude_dominates(
    scope: FilterScope,
    args: Seq<Seq<char>>,
    i: int,
    value: Seq<char>,
    wa: Set<Seq<char>>,
    recruitment_disabled: bool,
)
    requires
        0 <= i < args.len(),
        args[i] != "*"@,
        args[i].len() > 0,
        args[i][0] == '!',
        spec_entry_pred(scope, args[i].skip(1), value, wa, recruitment_disabled),
    ensures
        !spec_list_passes(scope, args, Some(value), wa, recruitment_disabled),
{
    assert(spec_entry_excludes(scope, args[i], value, wa, recruitment_disabled));
    assert(spec_any_excludes(
        scope,
        args,
        args.len() as int,
        value,
        wa,
        recruitment_disabled,
    ));
}

/// Whether one entry forces the external capability check when its list
/// is evaluated against a present value.
pub open spec fn spec_entry_needs_cap(arg: Seq<char>) -> bool {
    arg == "$recruitment_disabled"@ || arg == "!$recruitment_disabled"@
}

/// Whether evaluating this recipient filter list consults the external
/// capability.
pub open spec fn spec_list_needs_cap(
    args: Seq<Seq<char>>,
    value: Option<Seq<char>>,
) -> bool {
    value is Some && exists|i: int| 0 <= i < args.len() && spec_entry_needs_cap(args[i])
}

fn entry_needs_capability(arg: &str) -> (r: bool)
    ensures
        r == spec_entry_needs_cap(arg@),
{
    str_eq(arg, "$recruitment_disabled") || str_eq(arg, "!$recruitment_disabled")
}

/// Whether evaluating `args` against `value` would consult the external
/// capability.
pub fn list_needs_capability(args: &Vec<String>, value: &Option<String>) -> (r: bool)
    ensures
        r == spec_list_needs_cap(args.deep_view(), value.deep_view()),
{
    match value {
        None => false,
        Some(v) => {
            proof {
                assert(value.deep_view() == Some(v@));
            }
            let ghost argv = args.deep_view();
            let n = args.len();
            let mut i: usize = 0;
            while i < n
                invariant
                    value.deep_view() == Some(v@),
                    argv == args.deep_view(),
                    n == args@.len(),
                    i <= n,
                    forall|j: int| 0 <= j < i ==> !spec_entry_needs_cap(argv[j]),
                decreases n - i,
            {
                proof {
                    assert(argv[i as int] == args@[i as int]@);
                }
                if entry_needs_capability(args[i].as_str()) {
                    return true;
                }
                i = i + 1;
            }
            false
        },
    }
}

proof fn lemma_is_cap_command(arg: Seq<char>)
    requires
        arg.len() > 0,
        arg[0] == '$',
        arg.skip(1) == "recruitment_disabled"@,
    ensures
        arg == "$recruitment_disabled"@,
{
    reveal_strlit("recruitment_disabled");
    reveal_strlit("$recruitment_disabled");
    assert(arg.skip(1).len() == arg.len() - 1);
    assert(arg.len() == 21);
    assert forall|i: int| 0 <= i < 21 implies arg[i] == "$recruitment_disabled"@[i] by {
        if i > 0 {
            assert(arg.skip(1)[i - 1] == arg[i]);
            assert(arg.skip(1)[i - 1] == "recruitment_disabled"@[i - 1]);
        }
    }
    assert(arg =~= "$recruitment_disabled"@);
}

proof fn lemma_is_negated_cap_command(arg: Seq<char>)
    requires
        arg.len() > 0,
        arg[0] == '!',
        arg.skip(1) == "$recruitment_disabled"@,
    ensures
        arg == "!$recruitment_disabled"@,
{
    reveal_strlit("$recruitment_disabled");
    reveal_strlit("!$recruitment_disabled");
    assert(arg.skip(1).len() == arg.len() - 1);
    assert(arg.len() == 22);
    assert forall|i: int| 0 <= i < 22 implies arg[i] == "!$recruitment_disabled"@[i] by {
        if i > 0 {
            assert(arg.skip(1)[i - 1] == arg[i]);
            assert(arg.skip(1)[i - 1] == "$recruitment_disabled"@[i - 1]);
        }
    }
    assert(arg =~= "!$recruitment_disabled"@);
}

proof fn lemma_pred_cap_irrelevant(
    scope: FilterScope,
    arg: Seq<char>,
    value: Seq<char>,
    wa: Set<Seq<char>>,
    rd1: bool,
    rd2: bool,
)
    requires
        arg != "$recruitment_disabled"@,
    ensures
        spec_entry_pred(scope, arg, value, wa, rd1) == spec_entry_pred(
            scope,
            arg,
            value,
            wa,
            rd2,
        ),
{
    if arg.len() > 0 && arg[0] == '$' {
        if arg.skip(1) == "recruitment_disabled"@ {
            lemma_is_cap_command(arg);
        }
    }
}

proof fn lemma_entry_cap_irrelevant(
    scope: FilterScope,
    arg: Seq<char>,
    value: Seq<char>,
    wa: Set<Seq<char>>,
    rd1: bool,
    rd2: bool,
)
    requires
        !spec_entry_needs_cap(arg),
    ensures
        spec_entry_includes(scope, arg, value, wa, rd1) == spec_entry_includes(
            scope,
            arg,
            value,
            wa,
            rd2,
        ),
        spec_entry_excludes(scope, arg, value, wa, rd1) == spec_entry_excludes(
            scope,
            arg,
            value,
            wa,
            rd2,
        ),
{
    lemma_pred_cap_irrelevant(scope, arg, value, wa, rd1, rd2);
    if arg.len() > 0 && arg[0] == '!' {
        if arg.skip(1) == "$recruitment_disabled"@ {
            lemma_is_negated_cap_command(arg);
        }
        lemma_pred_cap_irrelevant(scope, arg.skip(1), value, wa, rd1, rd2);
    }
}

/// Law: a filter list that names the capability command nowhere is
/// indifferent to the capability answer, so evaluating such a list
/// with any default answer is sound.
pub proof fn lemma_list_cap_irrelevant(
    scope: FilterScope,
    args: Seq<Seq<char>>,
    value: Option<Seq<char>>,
    wa: Set<Seq<char>>,
    rd1: bool,
    rd2: bool,
)
    requires
        !spec_list_needs_cap(args, value),
    ensures
        spec_list_passes(scope, args, value, wa, rd1) == spec_list_passes(
            scope,
            args,
            value,
            wa,
            rd2,
        ),
{
    match value {
        None => {},
        Some(v) => {
            let n = args.len() as int;
            assert forall|j: int| 0 <= j < n implies !spec_entry_needs_cap(args[j])
                && spec_entry_includes(scope, args[j], v, wa, rd1)
                == spec_entry_includes(scope, args[j], v, wa, rd2)
                && spec_entry_excludes(scope, args[j], v, wa, rd1)
                == spec_entry_excludes(scope, args[j], v, wa, rd2) by {
                lemma_entry_cap_irrelevant(scope, args[j], v, wa, rd1, rd2);
            }
            assert(spec_any_includes(scope, args, n, v, wa, rd1) == spec_any_includes(
                scope,
                args,
                n,
                v,
                wa,
                rd2,
            )) by {
                if spec_any_includes(scope, args, n, v, wa, rd1) {
                    let j = choose|j: int|
                        0 <= j < n && spec_entry_includes(scope, args[j], v, wa, rd1);
                    assert(spec_entry_includes(scope, args[j], v, wa, rd2));
                }
                if spec_any_includes(scope, args, n, v, wa, rd2) {
                    let j = choose|j: int|
                        0 <= j < n && spec_entry_includes(scope, args[j], v, wa, rd2);
                    assert(spec_entry_includes(scope, args[j], v, wa, rd1));
                }
            }
            assert(spec_any_excludes(scope, args, n, v, wa, rd1) == spec_any_excludes(
                scope,
                args,
                n,
                v,
                wa,
                rd2,
            )) by {
                if spec_any_excludes(scope, args, n, v, wa, rd1) {
                    let j = choose|j: int|
                        0 <= j < n && spec_entry_excludes(scope, args[j], v, wa, rd1);
                    assert(spec_entry_excludes(scope, args[j], v, wa, rd2));
                }
                if spec_any_excludes(scope, args, n, v, wa, rd2) {
                    let j = choose|j: int|
                        0 <= j < n && spec_entry_excludes(scope, args[j], v, wa, rd2);
                    assert(spec_entry_excludes(scope, args[j], v, wa, rd1));
                }
            }
        },
    }
}

/// Whether a rule matches one logical transition of an event.
pub open spec fn spec_rule_matches_tuple(
    rule: RuleView,
    t: EventTupleView,
    wa: Set<Seq<char>>,
    recruitment_disabled: bool,
) -> bool {
    rule.event.contains(t.category) && spec_list_passes(
        FilterScope::Nation,
        rule.nations,
        t.nation,
        wa,
        recruitment_disabled,
    ) && spec_list_passes(
        FilterScope::Region,
        rule.regions,
        t.region,
        wa,
        recruitment_disabled,
    )
}

/// Whether a rule matches any transition in the sequence.
pub open spec fn spec_rule_matches_tuples(
    rule: RuleView,
    ts: Seq<EventTupleView>,
    wa: Set<Seq<char>>,
    recruitment_disabled: bool,
) -> bool {
    exists|k: int|
        0 <= k < ts.len() && spec_rule_matches_tuple(rule, ts[k], wa, recruitment_disabled)
}

/// Whether a rule matches an event.
pub open spec fn spec_rule_matches_event(
    rule: RuleView,
    e: EventView,
    wa: Set<Seq<char>>,
    recruitment_disabled: bool,
) -> bool {
    spec_rule_matches_tuples(rule, spec_translate(e), wa, recruitment_disabled)
}

fn contains_str(list: &Vec<String>, s: &str) -> (r: bool)
    ensures
        r == list.deep_view().contains(s@),
{
    let n = list.len();
    let mut i: usize = 0;
    while i < n
        invariant
            n == list@.len(),
            i <= n,
            forall|j: int| 0 <= j < i ==> list.deep_view()[j] != s@,
        decreases n - i,
    {
        proof {
            assert(list.deep_view()[i as int] == list@[i as int]@);
        }
        if str_eq(list[i].as_str(), s) {
            proof {
                assert(list.deep_view().contains(s@));
            }
            return true;
        }
        i = i + 1;
    }
    false
}

/// Whether a rule matches one translated transition.
pub fn rule_matches_tuple(
    rule: &Rule,
    t: &EventTuple,
    wa: &MembershipCache,
    recruitment_disabled: bool,
) -> (r: bool)
    ensures
        r == spec_rule_matches_tuple(rule@, t@, wa@, recruitment_disabled),
{
    if !contains_str(&rule.event, t.category.as_str()) {
        return false;
    }
    if !eval_filter_list(
        FilterScope::Nation,
        &rule.nations,
        &t.nation,
        wa,
        recruitment_disabled,
    ) {
        return false;
    }
    eval_filter_list(FilterScope::Region, &rule.regions, &t.region, wa, recruitment_disabled)
}

/// Whether a rule matches any of the translated transitions.
pub fn rule_matches_tuples(
    rule: &Rule,
    tuples: &Vec<EventTuple>,
    wa: &MembershipCache,
    recruitment_disabled: bool,
) -> (r: bool)
    ensures
        r == spec_rule_matches_tuples(
            rule@,
            tuples.deep_view(),
            wa@,
            recruitment_disabled,
        ),
{
    let ghost tv = tuples.deep_view();
    let n = tuples.len();
    let mut i: usize = 0;
    while i < n
        invariant
            tv == tuples.deep_view(),
            n == tuples@.len(),
            i <= n,
            forall|j: int|
                0 <= j < i ==> !spec_rule_matches_tuple(rule@, tv[j], wa@,
                recruitment_disabled),
        decreases n - i,
    {
        proof {
            assert(tv[i as int] == tuples@[i as int]@);
        }
        if rule_matches_tuple(rule, &tuples[i], wa, recruitment_disabled) {
            return true;
        }
        i = i + 1;
    }
    false
}

/// Decides whether an event matches a rule, given the capability answer
/// the recipient filters may consult.
pub fn match_rule(
    event: &Event,
    rule: &Rule,
    wa: &MembershipCache,
    recruitment_disabled: bool,
) -> (r: bool)
    ensures
        r == spec_rule_matches_event(rule@, event@, wa@, recruitment_disabled),
{
    let tuples = translate_event_category(event);
    rule_matches_tuples(rule, &tuples, wa, recruitment_disabled)
}

/// Whether testing this transition against the rule consults the
/// external capability: the category is listened for and the recipient
/// filters name the capability command.
pub open spec fn spec_tuple_needs_cap(rule: RuleView, t: EventTupleView) -> bool {
    rule.event.contains(t.category) && spec_list_needs_cap(rule.nations, t.nation)
}

/// Whether evaluating the rule over the transitions, in order, reaches
/// a capability consultation before it settles. A transition that
/// matches first settles the rule without one.
pub open spec fn spec_tuples_need_cap(
    rule: RuleView,
    ts: Seq<EventTupleView>,
    wa: Set<Seq<char>>,
) -> bool
    decreases ts.len(),
{
    ts.len() > 0 && (spec_tuple_needs_cap(rule, ts[0]) || (!spec_rule_matches_tuple(
        rule,
        ts[0],
        wa,
        false,
    ) && spec_tuples_need_cap(rule, ts.drop_first(), wa)))
}

/// Whether evaluating the rule against these transitions would consult
/// the external capability.
pub fn tuples_need_cap(rule: &Rule, tuples: &Vec<EventTuple>, wa: &MembershipCache) -> (r:
    bool)
    ensures
        r == spec_tuples_need_cap(rule@, tuples.deep_view(), wa@),
{
    let ghost tv = tuples.deep_view();
    proof {
        assert(tv.skip(0) =~= tv);
    }
    let n = tuples.len();
    let mut i: usize = 0;
    while i < n
        invariant
            tv == tuples.deep_view(),
            n == tuples@.len(),
            i <= n,
            spec_tuples_need_cap(rule@, tv, wa@) == spec_tuples_need_cap(
                rule@,
                tv.skip(i as int),
                wa@,
            ),
        decreases n - i,
    {
        proof {
            assert(tv[i as int] == tuples@[i as int]@);
            assert(tv.skip(i as int)[0] == tv[i as int]);
        }
        if contains_str(&rule.event, tuples[i].category.as_str())
            && list_needs_capability(&rule.nations, &tuples[i].nation) {
            proof {
                assert(spec_tuple_needs_cap(rule@, tv[i as int]));
                assert(spec_tuples_need_cap(rule@, tv.skip(i as int), wa@));
            }
            return true;
        }
        if rule_matches_tuple(rule, &tuples[i], wa, false) {
            proof {
                assert(!spec_tuple_needs_cap(rule@, tv[i as int]));
                assert(!spec_tuples_need_cap(rule@, tv.skip(i as int), wa@));
            }
            return false;
        }
        proof {
            assert(tv.skip(i as int).drop_first() =~= tv.skip(i as int + 1));
        }
        i = i + 1;
    }
    proof {
        assert(tv.skip(n as int).len() == 0);
    }
    false
}

} // verus!
