//! The dynamic group-membership set the rule engine consults.
//!
//! The set is fully replaced when a background refresh succeeds and is
//! incrementally patched by specific event categories in between.
use vstd::prelude::*;

use crate::event::{Event, EventView};
use crate::strutil::str_eq;

verus! {

pub struct MembershipCache {
    members: Vec<String>,
}

impl View for MembershipCache {
    type V = Set<Seq<char>>;

    closed spec fn view(&self) -> Set<Seq<char>> {
        Set::new(|x: Seq<char>| self.members.deep_view().contains(x))
    }
}

/// How a single event patches the membership set: an arrival inserts the
/// actor, a resignation removes the actor, and a cease-to-exist or a
/// forced removal removes the receptor.
pub open spec fn spec_delta(s: Set<Seq<char>>, e: EventView) -> Set<Seq<char>> {
    if e.category == "ncte"@ {
        match e.receptor {
            Some(n) => s.remove(n),
            None => s,
        }
    } else if e.category == "wadmit"@ {
        match e.actor {
            Some(n) => s.insert(n),
            None => s,
        }
    } else if e.category == "wresign"@ {
        match e.actor {
            Some(n) => s.remove(n),
            None => s,
        }
    } else if e.category == "wkick"@ {
        match e.receptor {
            Some(n) => s.remove(n),
            None => s,
        }
    } else {
        s
    }
}

impl MembershipCache {
    /// Each identifier is held at most once.
    pub closed spec fn wf(&self) -> bool {
        forall|i: int, j: int|
            0 <= i < j < self.members@.len() ==> self.members@[i]@ != self.members@[j]@
    }

    pub fn new() -> (r: MembershipCache)
        ensures
            r.wf(),
            r@ == Set::<Seq<char>>::empty(),
    {
        let r = MembershipCache { members: Vec::new() };
        proof {
            assert(r@ =~= Set::<Seq<char>>::empty());
        }
        r
    }

    fn index_of(&self, nation: &str) -> (r: Option<usize>)
        ensures
            r matches Some(i) ==> i < self.members@.len() && self.members@[i as int]@
                == nation@,
            r is None ==> !self@.contains(nation@),
    {
        let n = self.members.len();
        let mut i: usize = 0;
        while i < n
            invariant
                n == self.members@.len(),
                i <= n,
                forall|j: int| 0 <= j < i ==> self.members@[j]@ != nation@,
            decreases n - i,
        {
            if str_eq(self.members[i].as_str(), nation) {
                return Some(i);
            }
            i = i + 1;
        }
        proof {
            assert(!self.members.deep_view().contains(nation@));
        }
        None
    }

    /// Set-containment query; the only read the rule engine makes.
    pub fn contains(&self, nation: &str) -> (r: bool)
        ensures
            r == self@.contains(nation@),
    {
        match self.index_of(nation) {
            Some(i) => {
                proof {
                    assert(self.members.deep_view()[i as int] == nation@);
                    assert(self.members.deep_view().contains(nation@));
                }
                true
            },
            None => false,
        }
    }

    /// Adds one identifier; a no-op when it is already present.
    pub fn insert(&mut self, nation: String)
        requires
            old(self).wf(),
        ensures
            final(self).wf(),
            final(self)@ == old(self)@.insert(nation@),
    {
        match self.index_of(nation.as_str()) {
            Some(i) => {
                proof {
                    assert(self.members.deep_view()[i as int] == nation@);
                    assert(self.members.deep_view().contains(nation@));
                    assert(self@ =~= self@.insert(nation@));
                }
            },
            None => {
                let ghost olds = self.members.deep_view();
                self.members.push(nation);
                proof {
                    let news = self.members.deep_view();
                    assert(news =~= olds.push(nation@));
                    assert forall|x: Seq<char>| news.contains(x) implies olds.contains(x)
                        || x == nation@ by {
                        let k = choose|k: int| 0 <= k < news.len() && news[k] == x;
                        if k < olds.len() {
                            assert(olds[k] == x);
                        }
                    }
                    assert forall|x: Seq<char>| olds.contains(x) implies news.contains(x) by {
                        let k = choose|k: int| 0 <= k < olds.len() && olds[k] == x;
                        assert(news[k] == x);
                    }
                    assert(news.contains(nation@)) by {
                        assert(news[olds.len() as int] == nation@);
                    }
                    assert(final(self)@ =~= old(self)@.insert(nation@));
                    assert(!olds.contains(nation@));
                    assert forall|a: int, b: int|
                        0 <= a < b < self.members@.len() implies self.members@[a]@
                        != self.members@[b]@ by {
                        if b == olds.len() {
                            assert(self.members@[b]@ == nation@);
                            assert(olds[a] == self.members@[a]@);
                        } else {
                            assert(old(self).members@[a]@ != old(self).members@[b]@);
                        }
                    }
                }
            },
        }
    }

    /// Removes one identifier; a no-op when it is absent.
    pub fn remove(&mut self, nation: &str)
        requires
            old(self).wf(),
        ensures
            final(self).wf(),
            final(self)@ == old(self)@.remove(nation@),
    {
        match self.index_of(nation) {
            Some(i) => {
                let ghost olds = self.members.deep_view();
                let ghost oi = i as int;
                let ghost n = olds.len() as int;
                self.members.swap_remove(i);
                proof {
                    let news = self.members.deep_view();
                    assert(news =~= olds.update(oi, olds[n - 1]).drop_last());
                    assert forall|x: Seq<char>| news.contains(x) implies olds.contains(x)
                        && x != nation@ by {
                        let k = choose|k: int| 0 <= k < news.len() && news[k] == x;
                        if k == oi {
                            assert(olds[n - 1] == x);
                            assert(olds.contains(x));
                        } else {
                            assert(olds[k] == x);
                        }
                        if x == nation@ {
                            assert(olds[oi] == nation@);
                            if k == oi {
                                assert(olds[n - 1] == nation@);
                                assert(oi < n - 1);
                                assert(false);
                            } else {
                                assert(olds[k] == nation@);
                                assert(k != oi);
                                assert(false);
                            }
                        }
                    }
                    assert forall|x: Seq<char>| olds.contains(x) && x != nation@
                        implies news.contains(x) by {
                        let k = choose|k: int| 0 <= k < olds.len() && olds[k] == x;
                        assert(k != oi);
                        if k < n - 1 {
                            assert(news[k] == x);
                        } else {
                            assert(oi < n - 1);
                            assert(news[oi] == x);
                        }
                    }
                    assert(final(self)@ =~= old(self)@.remove(nation@));
                }
            },
            None => {
                proof {
                    assert(final(self)@ =~= old(self)@.remove(nation@));
                }
            },
        }
    }

    /// Replaces the whole set with a freshly fetched member list; what was
    /// held before does not influence the outcome.
    pub fn replace_all(&mut self, list: Vec<String>)
        ensures
            final(self).wf(),
            final(self)@ == Set::new(|x: Seq<char>| list.deep_view().contains(x)),
    {
        self.members = Vec::new();
        let n = list.len();
        let mut i: usize = 0;
        while i < n
            invariant
                n == list@.len(),
                i <= n,
                self.wf(),
                self@ == Set::new(
                    |x: Seq<char>| list.deep_view().subrange(0, i as int).contains(x),
                ),
            decreases n - i,
        {
            let ghost pre = list.deep_view().subrange(0, i as int);
            let nation = list[i].clone();
            proof {
                assert(nation@ == list.deep_view()[i as int]);
            }
            self.insert(nation);
            proof {
                let post = list.deep_view().subrange(0, i as int + 1);
                assert(post =~= pre.push(list.deep_view()[i as int]));
                assert forall|x: Seq<char>| post.contains(x) implies pre.contains(x)
                    || x == list.deep_view()[i as int] by {
                    let k = choose|k: int| 0 <= k < post.len() && post[k] == x;
                    if k < pre.len() {
                        assert(pre[k] == x);
                    }
                }
                assert forall|x: Seq<char>| pre.contains(x) implies post.contains(x) by {
                    let k = choose|k: int| 0 <= k < pre.len() && pre[k] == x;
                    assert(post[k] == x);
                }
                assert(post.contains(list.deep_view()[i as int])) by {
                    assert(post[i as int] == list.deep_view()[i as int]);
                }
                assert(self@ =~= Set::new(|x: Seq<char>| post.contains(x)));
            }
            i = i + 1;
        }
        proof {
            assert(list.deep_view().subrange(0, n as int) =~= list.deep_view());
            assert(final(self)@ =~= Set::new(
                |x: Seq<char>| list.deep_view().contains(x),
            ));
        }
    }

    /// Applies the single-event membership patch described by `spec_delta`.
    pub fn notify_membership_delta(&mut self, event: &Event)
        requires
            old(self).wf(),
        ensures
            final(self).wf(),
            final(self)@ == spec_delta(old(self)@, event@),
    {
        let cat = event.category.as_str();
        if str_eq(cat, "ncte") {
            if let Some(nation) = &event.receptor {
                self.remove(nation.as_str());
            }
        } else if str_eq(cat, "wadmit") {
            if let Some(nation) = &event.actor {
                let owned = nation.clone();
                self.insert(owned);
            }
        } else if str_eq(cat, "wresign") {
            if let Some(nation) = &event.actor {
                self.remove(nation.as_str());
            }
        } else if str_eq(cat, "wkick") {
            if let Some(nation) = &event.receptor {
                self.remove(nation.as_str());
            }
        }
    }
}

/// True for the event category that marks the membership set as possibly
/// stale; the ingress path fires a refresh trigger when it sees one.
pub fn is_refresh_trigger(event: &Event) -> (r: bool)
    ensures
        r == (event@.category == "connmiss"@),
{
    str_eq(event.category.as_str(), "connmiss")
}

} // verus!
