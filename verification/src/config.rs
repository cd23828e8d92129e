//! The static configuration the engine runs against: named rules and the
//! template table they draw from. Loading it from disk is the embedding
//! process's job; the engine only reads these structures.
use vstd::prelude::*;

use crate::strutil::str_eq;

verus! {

/// One rule: which event categories it listens for, the two filter
/// lists, the queue a match feeds, and the template names to choose
/// among on a match.
pub struct Rule {
    pub event: Vec<String>,
    pub regions: Vec<String>,
    pub nations: Vec<String>,
    pub queue: String,
    pub templates: Vec<String>,
}

#[verifier::ext_equal]
pub struct RuleView {
    pub event: Seq<Seq<char>>,
    pub regions: Seq<Seq<char>>,
    pub nations: Seq<Seq<char>>,
    pub queue: Seq<char>,
    pub templates: Seq<Seq<char>>,
}

impl View for Rule {
    type V = RuleView;

    open spec fn view(&self) -> RuleView {
        RuleView {
            event: self.event.deep_view(),
            regions: self.regions.deep_view(),
            nations: self.nations.deep_view(),
            queue: self.queue@,
            templates: self.templates.deep_view(),
        }
    }
}

impl DeepView for Rule {
    type V = RuleView;

    open spec fn deep_view(&self) -> RuleView {
        self.view()
    }
}

/// The credentials one template name stands for.
pub struct TemplateConfig {
    pub tgid: String,
    pub tg_key: String,
    pub client_key: String,
}

#[verifier::ext_equal]
pub struct TemplateConfigView {
    pub tgid: Seq<char>,
    pub tg_key: Seq<char>,
    pub client_key: Seq<char>,
}

impl View for TemplateConfig {
    type V = TemplateConfigView;

    open spec fn view(&self) -> TemplateConfigView {
        TemplateConfigView {
            tgid: self.tgid@,
            tg_key: self.tg_key@,
            client_key: self.client_key@,
        }
    }
}

impl DeepView for TemplateConfig {
    type V = TemplateConfigView;

    open spec fn deep_view(&self) -> TemplateConfigView {
        self.view()
    }
}

/// The ingress transport's settings.
pub struct InputConfig {
    pub exchange_name: String,
}

/// The whole configuration: read once at startup, read-only after.
pub struct Config {
    pub input: InputConfig,
    pub templates: Vec<(String, TemplateConfig)>,
    pub rules: Vec<(String, Rule)>,
}

/// The body of a direct ingress request: one template applied to many
/// recipients, aimed at one queue.
pub struct RequestQueryModel {
    pub queue: String,
    pub tgid: String,
    pub tg_key: String,
    pub client_key: String,
    pub nations: Vec<String>,
}

/// The template bound to `name`: the first binding that carries it.
pub open spec fn spec_lookup_template(
    table: Seq<(Seq<char>, TemplateConfigView)>,
    name: Seq<char>,
) -> Option<TemplateConfigView>
    decreases table.len(),
{
    if table.len() == 0 {
        None
    } else if table[0].0 == name {
        Some(table[0].1)
    } else {
        spec_lookup_template(table.drop_first(), name)
    }
}

pub proof fn lemma_lookup_template(
    table: Seq<(Seq<char>, TemplateConfigView)>,
    name: Seq<char>,
)
    ensures
        match spec_lookup_template(table, name) {
            Some(t) => exists|i: int|
                0 <= i < table.len() && table[i].0 == name && table[i].1 == t && forall|
                    j: int,
                |
                    0 <= j < i ==> table[j].0 != name,
            None => forall|j: int| 0 <= j < table.len() ==> table[j].0 != name,
        },
    decreases table.len(),
{
    if table.len() > 0 && table[0].0 != name {
        let rest = table.drop_first();
        lemma_lookup_template(rest, name);
        assert forall|j: int| 0 <= j < rest.len() implies rest[j] == table[j + 1] by {}
        match spec_lookup_template(rest, name) {
            Some(t) => {
                let i = choose|i: int|
                    0 <= i < rest.len() && rest[i].0 == name && rest[i].1 == t && forall|
                        j: int,
                    |
                        0 <= j < i ==> rest[j].0 != name;
                assert(table[i + 1].0 == name && table[i + 1].1 == t);
                assert forall|j: int| 0 <= j < i + 1 implies table[j].0 != name by {
                    if j > 0 {
                        assert(rest[j - 1] == table[j]);
                    }
                }
            },
            None => {
                assert forall|j: int| 0 <= j < table.len() implies table[j].0 != name by {
                    if j > 0 {
                        assert(rest[j - 1] == table[j]);
                    }
                }
            },
        }
    }
}

/// Finds the template a rule's chosen name points at, if any.
pub fn lookup_template<'a>(
    table: &'a Vec<(String, TemplateConfig)>,
    name: &str,
) -> (r: Option<&'a TemplateConfig>)
    ensures
        match r {
            Some(t) => spec_lookup_template(table.deep_view(), name@) == Some(t@),
            None => spec_lookup_template(table.deep_view(), name@) is None,
        },
{
    proof {
        lemma_lookup_template(table.deep_view(), name@);
    }
    let n = table.len();
    let mut i: usize = 0;
    while i < n
        invariant
            n == table@.len(),
            forall|j: int| 0 <= j < i ==> table.deep_view()[j].0 != name@,
            match spec_lookup_template(table.deep_view(), name@) {
                Some(t) => exists|k: int|
                    0 <= k < n && table.deep_view()[k].0 == name@ && table.deep_view()[k].1
                        == t && forall|j: int| 0 <= j < k ==> table.deep_view()[j].0
                        != name@,
                None => forall|j: int| 0 <= j < n ==> table.deep_view()[j].0 != name@,
            },
        decreases n - i,
    {
        proof {
            assert(table.deep_view()[i as int].0 == table@[i as int].0@);
            assert(table.deep_view()[i as int].1 == table@[i as int].1@);
        }
        if str_eq(table[i].0.as_str(), name) {
            proof {
                let k = choose|k: int|
                    0 <= k < n && table.deep_view()[k].0 == name@ && table.deep_view()[k].1
                        == spec_lookup_template(table.deep_view(), name@)->Some_0 && forall|
                        j: int,
                    |
                        0 <= j < k ==> table.deep_view()[j].0 != name@;
                assert(k == i as int);
            }
            return Some(&table[i].1);
        }
        i = i + 1;
    }
    None
}

} // verus!
