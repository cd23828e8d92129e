//! The incoming domain events and their translation into logical
//! transitions that rules are tested against.
use vstd::prelude::*;

use crate::strutil::str_eq;
use vstd::string::StringExecFns;

verus! {

/// An immutable record read off the event stream. The meaning of the
/// identifier fields depends on the category.
pub struct Event {
    pub category: String,
    pub actor: Option<String>,
    pub receptor: Option<String>,
    pub origin: Option<String>,
    pub destination: Option<String>,
}

#[verifier::ext_equal]
pub struct EventView {
    pub category: Seq<char>,
    pub actor: Option<Seq<char>>,
    pub receptor: Option<Seq<char>>,
    pub origin: Option<Seq<char>>,
    pub destination: Option<Seq<char>>,
}

impl View for Event {
    type V = EventView;

    open spec fn view(&self) -> EventView {
        EventView {
            category: self.category@,
            actor: self.actor.deep_view(),
            receptor: self.receptor.deep_view(),
            origin: self.origin.deep_view(),
            destination: self.destination.deep_view(),
        }
    }
}

impl Event {
    pub fn new(
        category: String,
        actor: Option<String>,
        receptor: Option<String>,
        origin: Option<String>,
        destination: Option<String>,
    ) -> (r: Event)
        ensures
            r.category == category,
            r.actor == actor,
            r.receptor == receptor,
            r.origin == origin,
            r.destination == destination,
    {
        Event { category, actor, receptor, origin, destination }
    }
}

/// One logical transition an event stands for: a category to look up in a
/// rule, plus the recipient and group identifiers the rule's filters test.
pub struct EventTuple {
    pub category: String,
    pub nation: Option<String>,
    pub region: Option<String>,
}

#[verifier::ext_equal]
pub struct EventTupleView {
    pub category: Seq<char>,
    pub nation: Option<Seq<char>>,
    pub region: Option<Seq<char>>,
}

impl View for EventTuple {
    type V = EventTupleView;

    open spec fn view(&self) -> EventTupleView {
        EventTupleView {
            category: self.category@,
            nation: self.nation.deep_view(),
            region: self.region.deep_view(),
        }
    }
}

impl DeepView for EventTuple {
    type V = EventTupleView;

    open spec fn deep_view(&self) -> EventTupleView {
        self.view()
    }
}

pub open spec fn spec_tuple(
    category: Seq<char>,
    nation: Option<Seq<char>>,
    region: Option<Seq<char>>,
) -> EventTupleView {
    EventTupleView { category, nation, region }
}

/// The transitions each raw category stands for. A relocation names two:
/// a departure from the origin group and an arrival at the destination
/// group, both for the same recipient. Unknown categories name none.
pub open spec fn spec_translate(e: EventView) -> Seq<EventTupleView> {
    if e.category == "move"@ {
        seq![
            spec_tuple("move_from"@, e.actor, e.origin),
            spec_tuple("move_to"@, e.actor, e.destination),
        ]
    } else if e.category == "wadmit"@ {
        seq![spec_tuple("admit"@, e.actor, e.origin)]
    } else if e.category == "wresign"@ {
        seq![spec_tuple("resign"@, e.actor, e.origin)]
    } else if e.category == "nfound"@ {
        seq![spec_tuple("found"@, e.actor, e.origin)]
    } else if e.category == "nrefound"@ {
        seq![spec_tuple("refound"@, e.actor, e.origin)]
    } else {
        Seq::empty()
    }
}

fn clone_opt(s: &Option<String>) -> (r: Option<String>)
    ensures
        r.deep_view() == s.deep_view(),
{
    match s {
        Some(v) => Some(v.clone()),
        None => None,
    }
}

/// Translates an event into the logical transitions to test, in order.
pub fn translate_event_category(event: &Event) -> (r: Vec<EventTuple>)
    ensures
        r.deep_view() == spec_translate(event@),
{
    let mut out: Vec<EventTuple> = Vec::new();
    let cat = event.category.as_str();
    if str_eq(cat, "move") {
        out.push(EventTuple {
            category: String::from_str("move_from"),
            nation: clone_opt(&event.actor),
            region: clone_opt(&event.origin),
        });
        out.push(EventTuple {
            category: String::from_str("move_to"),
            nation: clone_opt(&event.actor),
            region: clone_opt(&event.destination),
        });
    } else if str_eq(cat, "wadmit") {
        out.push(EventTuple {
            category: String::from_str("admit"),
            nation: clone_opt(&event.actor),
            region: clone_opt(&event.origin),
        });
    } else if str_eq(cat, "wresign") {
        out.push(EventTuple {
            category: String::from_str("resign"),
            nation: clone_opt(&event.actor),
            region: clone_opt(&event.origin),
        });
    } else if str_eq(cat, "nfound") {
        out.push(EventTuple {
            category: String::from_str("found"),
            nation: clone_opt(&event.actor),
            region: clone_opt(&event.origin),
        });
    } else if str_eq(cat, "nrefound") {
        out.push(EventTuple {
            category: String::from_str("refound"),
            nation: clone_opt(&event.actor),
            region: clone_opt(&event.origin),
        });
    }
    proof {
        assert(out.deep_view() =~~= spec_translate(event@));
    }
    out
}

} // verus!
