//! Recipient deduplication for one notice evaluation pass.
//!
//! While one notice is matched against the whole subscription catalog, every
//! matching subscription's resolved address is collected here. Addresses are
//! kept once, however many matching subscriptions a user has, so exactly one
//! notification per distinct address is dispatched after the sweep.

use crate::advertisment::{spec_matches, Advertisment};
use crate::subscription::Subscription;
use vstd::prelude::*;

verus! {

/// No address occurs twice.
pub open spec fn distinct_addresses(es: Seq<Seq<char>>) -> bool {
    forall|i: int, j: int| 0 <= i < j < es.len() ==> es[i] != es[j]
}

/// The set of addresses to notify for one notice, in first-insertion order,
/// each address held at most once.
pub struct RecipientSet {
    emails: Vec<String>,
}

impl View for RecipientSet {
    type V = Seq<Seq<char>>;

    closed spec fn view(&self) -> Seq<Seq<char>> {
        self.emails.deep_view()
    }
}

impl RecipientSet {
    /// Every address is held at most once.
    pub open spec fn wf(&self) -> bool {
        distinct_addresses(self@)
    }

    /// An empty recipient set.
    pub fn new() -> (s: RecipientSet)
        ensures
            s@ == Seq::<Seq<char>>::empty(),
            s.wf(),
    {
        let s = RecipientSet { emails: Vec::new() };
        proof {
            assert(s@ =~= Seq::<Seq<char>>::empty());
        }
        s
    }

    /// How many distinct addresses have been collected.
    pub fn len(&self) -> (n: usize)
        ensures
            n == self@.len(),
    {
        self.emails.len()
    }

    /// The address at one position of the collection order.
    pub fn address_at(&self, i: usize) -> (r: &String)
        requires
            i < self@.len(),
        ensures
            r@ == self@[i as int],
    {
        &self.emails[i]
    }

    /// Whether an address is already collected.
    pub fn contains(&self, email: &String) -> (r: bool)
        ensures
            r == self@.contains(email@),
    {
        let mut i: usize = 0;
        while i < self.emails.len()
            invariant
                0 <= i <= self@.len(),
                self@.len() == self.emails@.len(),
                forall|k: int| 0 <= k < i ==> self@[k] != email@,
                forall|k: int| 0 <= k < self@.len() ==> self@[k] == self.emails@[k]@,
            decreases self@.len() - i,
        {
            if *email == self.emails[i] {
                proof {
                    assert(self@[i as int] == self.emails@[i as int]@);
                }
                return true;
            }
            proof {
                assert(self@[i as int] == self.emails@[i as int]@);
            }
            i += 1;
        }
        false
    }

    /// Collects one address: a new address is appended, an address already
    /// present leaves the set unchanged, so it stays duplicate-free.
    pub fn insert(&mut self, email: String)
        requires
            old(self).wf(),
        ensures
            final(self).wf(),
            old(self)@.contains(email@) ==> final(self)@ == old(self)@,
            !old(self)@.contains(email@) ==> final(self)@ == old(self)@.push(email@),
    {
        if !self.contains(&email) {
            self.emails.push(email);
            proof {
                assert(final(self)@ =~= old(self)@.push(email@));
            }
        }
    }
}

/// One subscription of the sweep together with its owner's resolved address.
pub struct ResolvedSubscription {
    pub subscription: Subscription,
    pub email: String,
}

/// One full evaluation sweep over resolved subscriptions: the collected
/// addresses are exactly those of the subscriptions that match the notice,
/// each address kept once.
pub fn recipients_for(ad: &Advertisment, entries: &Vec<ResolvedSubscription>) -> (r: RecipientSet)
    ensures
        r.wf(),
        forall|e: Seq<char>| #![trigger r@.contains(e)]
            r@.contains(e) <==> exists|i: int|
                0 <= i < entries@.len() && spec_matches(*ad, #[trigger] entries@[i].subscription)
                    && entries@[i].email@ == e,
{
    let mut r = RecipientSet::new();
    let mut i: usize = 0;
    while i < entries.len()
        invariant
            0 <= i <= entries@.len(),
            r.wf(),
            forall|e: Seq<char>| #![trigger r@.contains(e)]
                r@.contains(e) <==> exists|k: int|
                    0 <= k < i && spec_matches(*ad, #[trigger] entries@[k].subscription)
                        && entries@[k].email@ == e,
        decreases entries@.len() - i,
    {
        let ghost r_before = r@;
        let entry = &entries[i];
        let matched = ad.matches_subscription(&entry.subscription);
        if matched {
            r.insert(entry.email.clone());
        }
        proof {
            assert forall|e: Seq<char>| #![trigger r@.contains(e)]
                r@.contains(e) <==> exists|k: int|
                    0 <= k < i + 1 && spec_matches(*ad, #[trigger] entries@[k].subscription)
                        && entries@[k].email@ == e by {
                if matched {
                    if r_before.contains(e) || entries@[i as int].email@ == e {
                        lemma_contains_of_push(r_before, entries@[i as int].email@, e);
                    }
                    if r@.contains(e) {
                        lemma_contains_of_push(r_before, entries@[i as int].email@, e);
                        if r_before.contains(e) {
                            let k = choose|k: int|
                                0 <= k < i && spec_matches(
                                    *ad,
                                    #[trigger] entries@[k].subscription,
                                ) && entries@[k].email@ == e;
                            assert(0 <= k < i + 1 && spec_matches(*ad, entries@[k].subscription)
                                && entries@[k].email@ == e);
                        } else {
                            assert(spec_matches(*ad, entries@[i as int].subscription)
                                && entries@[i as int].email@ == e);
                        }
                    }
                } else {
                    assert(r@ == r_before);
                    if r@.contains(e) {
                        let k = choose|k: int|
                            0 <= k < i && spec_matches(*ad, #[trigger] entries@[k].subscription)
                                && entries@[k].email@ == e;
                        assert(0 <= k < i + 1 && spec_matches(*ad, entries@[k].subscription)
                            && entries@[k].email@ == e);
                    }
                }
            }
        }
        i += 1;
    }
    r
}

/// Membership in a pushed address sequence: the old members, plus the pushed
/// address.
proof fn lemma_contains_of_push(s: Seq<Seq<char>>, v: Seq<char>, y: Seq<char>)
    ensures
        s.push(v).contains(y) <==> (s.contains(y) || y == v),
{
    if s.contains(y) {
        let i = choose|i: int| 0 <= i < s.len() && s[i] == y;
        assert(s.push(v)[i] == y);
    }
    if y == v {
        assert(s.push(v)[s.len() as int] == y);
    }
    if s.push(v).contains(y) && y != v {
        let i = choose|i: int| 0 <= i < s.push(v).len() && s.push(v)[i] == y;
        assert(s[i] == y);
    }
}

/// Within one sweep, two matching subscriptions of the same user resolve to
/// the same address, and a duplicate-free recipient set holds that address
/// exactly once: there is one and only one position dispatch sends it from.
pub proof fn lemma_one_notification_per_address(r: RecipientSet, e: Seq<char>)
    requires
        r.wf(),
        r@.contains(e),
    ensures
        exists|i: int| 0 <= i < r@.len() && r@[i] == e,
        forall|i: int, j: int|
            0 <= i < r@.len() && 0 <= j < r@.len() && r@[i] == e && r@[j] == e ==> i == j,
{
}

} // verus!
