//! The discovery feed poller's verified core: a bounded FIFO window of
//! recently seen notice identifiers, the acceptance of one listing batch
//! (drop already-seen identifiers, sort ascending, collapse duplicates, record
//! each survivor in the window), the pending queue the poller drains in
//! ascending order, and the link derived from a notice identifier.
//!
//! The surrounding application performs the listing and detail requests and
//! the poll-interval sleeps; it hands the identifiers it fetched to
//! `accept_listing` and asks `take_next_id` which notice to fetch next.

use vstd::prelude::*;

verus! {

/// Every element is strictly smaller than the ones after it: sorted ascending
/// with no duplicates.
pub open spec fn strictly_sorted(s: Seq<u64>) -> bool {
    forall|i: int, j: int| 0 <= i < j < s.len() ==> s[i] < s[j]
}

/// One window insertion: the oldest entry leaves the front, the new
/// identifier enters at the back.
pub open spec fn window_push(w: Seq<u64>, id: u64) -> Seq<u64> {
    w.drop_first().push(id)
}

/// The window after inserting `ids` one at a time, oldest eviction first.
pub open spec fn window_after(w: Seq<u64>, ids: Seq<u64>) -> Seq<u64>
    decreases ids.len(),
{
    if ids.len() == 0 {
        w
    } else {
        window_after(window_push(w, ids[0]), ids.drop_first())
    }
}

/// Inserting one more identifier extends a run of insertions.
pub proof fn lemma_window_after_snoc(w: Seq<u64>, ids: Seq<u64>, x: u64)
    ensures
        window_after(w, ids.push(x)) == window_push(window_after(w, ids), x),
    decreases ids.len(),
{
    if ids.len() == 0 {
        assert(ids.push(x)[0] == x);
        assert(ids.push(x).drop_first() =~= Seq::<u64>::empty());
        assert(window_after(window_push(w, x), Seq::<u64>::empty()) == window_push(w, x));
        assert(window_after(w, ids) == w);
    } else {
        assert(ids.push(x)[0] == ids[0]);
        assert(ids.push(x).drop_first() =~= ids.drop_first().push(x));
        lemma_window_after_snoc(window_push(w, ids[0]), ids.drop_first(), x);
        assert(window_after(w, ids) == window_after(window_push(w, ids[0]), ids.drop_first()));
        assert(window_after(w, ids.push(x)) == window_after(
            window_push(w, ids[0]),
            ids.drop_first().push(x),
        ));
    }
}

/// A non-empty window keeps its length across any run of insertions, and ends
/// up holding exactly the most recent identifiers, the oldest evicted first.
pub proof fn lemma_window_fifo(w: Seq<u64>, ids: Seq<u64>)
    requires
        w.len() > 0,
    ensures
        window_after(w, ids).len() == w.len(),
        window_after(w, ids) =~= (w + ids).subrange(ids.len() as int, ids.len() + w.len() as int),
    decreases ids.len(),
{
    if ids.len() == 0 {
        assert((w + ids).subrange(0, w.len() as int) =~= w);
    } else {
        let w1 = window_push(w, ids[0]);
        assert(w1.len() == w.len());
        lemma_window_fifo(w1, ids.drop_first());
        assert(w1 + ids.drop_first() =~= w.drop_first() + ids);
        assert((w1 + ids.drop_first()).subrange(
            ids.len() - 1,
            ids.len() - 1 + w.len(),
        ) =~= (w + ids).subrange(ids.len() as int, ids.len() + w.len() as int));
    }
}

/// With a batch no longer than the window, the window ends as its own tail
/// followed by the batch, in insertion order: exactly one oldest entry
/// evicted per insertion.
pub proof fn lemma_window_fifo_batch(w: Seq<u64>, ids: Seq<u64>)
    requires
        w.len() > 0,
        ids.len() <= w.len(),
    ensures
        window_after(w, ids) =~= w.subrange(ids.len() as int, w.len() as int) + ids,
{
    lemma_window_fifo(w, ids);
    assert((w + ids).subrange(ids.len() as int, ids.len() + w.len() as int) =~= w.subrange(
        ids.len() as int,
        w.len() as int,
    ) + ids);
}

/// Membership in a pushed sequence: the old members, plus the pushed value.
proof fn lemma_contains_push(s: Seq<u64>, v: u64, y: u64)
    ensures
        s.push(v).contains(y) <==> (s.contains(y) || y == v),
{
    if s.contains(y) {
        let i = choose|i: int| 0 <= i < s.len() && s[i] == y;
        assert(s.push(v)[i] == y);
    }
    if y == v {
        assert(s.push(v)[s.len() as int] == y);
    }
    if s.push(v).contains(y) && y != v {
        let i = choose|i: int| 0 <= i < s.push(v).len() && s.push(v)[i] == y;
        assert(s[i] == y);
    }
}

/// The poller's state between calls: how many listing entries to request, how
/// long to sleep when a poll finds nothing, the bounded window of recently
/// seen identifiers, and the pending identifiers not yet fetched in detail.
pub struct Scraper {
    pub ads_per_request: usize,
    pub request_freq_secs: u64,
    pub last_ads: Vec<u64>,
    pub new_ads: Vec<u64>,
}

/// Whether `v` holds `x` anywhere.
fn vec_contains(v: &Vec<u64>, x: u64) -> (r: bool)
    ensures
        r == v@.contains(x),
{
    let mut i: usize = 0;
    while i < v.len()
        invariant
            0 <= i <= v@.len(),
            forall|k: int| 0 <= k < i ==> v@[k] != x,
        decreases v@.len() - i,
    {
        if v[i] == x {
            return true;
        }
        i += 1;
    }
    false
}

/// Inserts a value not yet present into a strictly sorted vector, keeping it
/// strictly sorted.
fn insert_sorted(v: &mut Vec<u64>, x: u64)
    requires
        strictly_sorted(old(v)@),
        !old(v)@.contains(x),
    ensures
        strictly_sorted(final(v)@),
        final(v)@.len() == old(v)@.len() + 1,
        forall|y: u64| #![trigger final(v)@.contains(y)]
            final(v)@.contains(y) <==> (old(v)@.contains(y) || y == x),
{
    let mut p: usize = 0;
    while p < v.len() && v[p] < x
        invariant
            0 <= p <= v@.len(),
            forall|k: int| 0 <= k < p ==> v@[k] < x,
            v@ == old(v)@,
        decreases v@.len() - p,
    {
        p += 1;
    }
    proof {
        if p < v@.len() {
            assert(v@[p as int] != x) by {
                if v@[p as int] == x {
                    assert(v@.contains(x));
                }
            }
        }
    }
    v.insert(p, x);
    proof {
        let s = old(v)@;
        let t = v@;
        assert forall|i: int, j: int| 0 <= i < j < t.len() implies t[i] < t[j] by {
            assert(t[i] == if i < p { s[i] } else if i == p { x } else { s[i - 1] });
            assert(t[j] == if j < p { s[j] } else if j == p { x } else { s[j - 1] });
        }
        assert forall|y: u64| t.contains(y) implies (s.contains(y) || y == x) by {
            let i = choose|i: int| 0 <= i < t.len() && t[i] == y;
            if i != p {
                let si: int = if i < p { i } else { i - 1 };
                assert(s[si] == y);
            }
        }
        assert forall|y: u64| s.contains(y) || y == x implies t.contains(y) by {
            if y == x {
                assert(t[p as int] == y);
            } else {
                let i = choose|i: int| 0 <= i < s.len() && s[i] == y;
                let ti: int = if i < p { i } else { i + 1 };
                assert(t[ti] == y);
            }
        }
    }
}

impl Scraper {
    /// A fresh poller: an empty pending queue and a window of
    /// `remembered_ads_count` sentinel zero entries, so the window length is
    /// exactly its capacity from the start.
    pub fn new(ads_per_request: usize, remembered_ads_count: usize, request_freq_secs: u64) -> (s:
        Scraper)
        ensures
            s.ads_per_request == ads_per_request,
            s.request_freq_secs == request_freq_secs,
            s.last_ads@.len() == remembered_ads_count,
            forall|i: int| 0 <= i < s.last_ads@.len() ==> s.last_ads@[i] == 0u64,
            s.new_ads@.len() == 0,
    {
        let mut window: Vec<u64> = Vec::new();
        let mut i: usize = 0;
        while i < remembered_ads_count
            invariant
                0 <= i <= remembered_ads_count,
                window@.len() == i,
                forall|k: int| 0 <= k < i ==> window@[k] == 0u64,
            decreases remembered_ads_count - i,
        {
            window.push(0);
            i += 1;
        }
        Scraper { ads_per_request, request_freq_secs, last_ads: window, new_ads: Vec::new() }
    }

    /// Records one confirmed identifier: the oldest window entry is evicted,
    /// the new identifier enters. Exactly one eviction per insertion.
    fn push_seen(&mut self, id: u64)
        requires
            old(self).last_ads@.len() > 0,
        ensures
            final(self).last_ads@ == window_push(old(self).last_ads@, id),
            final(self).last_ads@.len() == old(self).last_ads@.len(),
            final(self).new_ads == old(self).new_ads,
            final(self).ads_per_request == old(self).ads_per_request,
            final(self).request_freq_secs == old(self).request_freq_secs,
    {
        self.last_ads.remove(0);
        self.last_ads.push(id);
        proof {
            assert(final(self).last_ads@ =~= window_push(old(self).last_ads@, id));
        }
    }

    /// Accepts one listing batch. Identifiers already in the window are
    /// dropped; the rest are sorted ascending with duplicates collapsed, each
    /// is recorded in the window (evicting the oldest entry one for one), and
    /// they become the pending queue, so the poller yields them in ascending
    /// order and never fetches the same identifier twice within one batch.
    pub fn accept_listing(&mut self, ids: Vec<u64>)
        requires
            old(self).new_ads@.len() == 0,
            old(self).last_ads@.len() > 0,
        ensures
            strictly_sorted(final(self).new_ads@),
            forall|x: u64| #![trigger final(self).new_ads@.contains(x)]
                final(self).new_ads@.contains(x) <==> (ids@.contains(x) && !old(
                    self).last_ads@.contains(x)),
            final(self).last_ads@ == window_after(old(self).last_ads@, final(self).new_ads@),
            final(self).last_ads@.len() == old(self).last_ads@.len(),
            final(self).ads_per_request == old(self).ads_per_request,
            final(self).request_freq_secs == old(self).request_freq_secs,
    {
        let ghost w0 = self.last_ads@;
        let mut fresh: Vec<u64> = Vec::new();
        let mut i: usize = 0;
        while i < ids.len()
            invariant
                0 <= i <= ids@.len(),
                self.last_ads@ == w0,
                w0.len() > 0,
                strictly_sorted(fresh@),
                forall|x: u64| #![trigger fresh@.contains(x)]
                    fresh@.contains(x) <==> (ids@.subrange(0, i as int).contains(x)
                        && !w0.contains(x)),
            decreases ids@.len() - i,
        {
            let id = ids[i];
            let ghost fresh_before = fresh@;
            let seen = vec_contains(&self.last_ads, id);
            let dup = vec_contains(&fresh, id);
            if !seen && !dup {
                insert_sorted(&mut fresh, id);
            }
            proof {
                assert(ids@.subrange(0, i + 1) =~= ids@.subrange(0, i as int).push(ids@[i as int]));
                assert forall|x: u64| #![trigger fresh@.contains(x)]
                    fresh@.contains(x) <==> (ids@.subrange(0, i + 1).contains(x) && !w0.contains(
                        x,
                    )) by {
                    lemma_contains_push(ids@.subrange(0, i as int), ids@[i as int], x);
                    assert(fresh_before.contains(x) <==> (ids@.subrange(0, i as int).contains(x)
                        && !w0.contains(x)));
                    if !seen && !dup {
                        assert(fresh@.contains(x) <==> (fresh_before.contains(x) || x == id));
                    } else {
                        assert(fresh@ == fresh_before);
                        if x == id {
                            if seen {
                                assert(w0.contains(id));
                            } else {
                                assert(fresh_before.contains(id));
                            }
                        }
                    }
                }
            }
            i += 1;
        }
        proof {
            assert(ids@.subrange(0, ids@.len() as int) =~= ids@);
        }
        let mut j: usize = 0;
        while j < fresh.len()
            invariant
                0 <= j <= fresh@.len(),
                w0.len() > 0,
                self.last_ads@ == window_after(w0, fresh@.subrange(0, j as int)),
                self.last_ads@.len() == w0.len(),
                self.new_ads@.len() == 0,
                self.ads_per_request == old(self).ads_per_request,
                self.request_freq_secs == old(self).request_freq_secs,
            decreases fresh@.len() - j,
        {
            let id = fresh[j];
            self.push_seen(id);
            proof {
                assert(fresh@.subrange(0, j + 1) =~= fresh@.subrange(0, j as int).push(
                    fresh@[j as int],
                ));
                lemma_window_after_snoc(w0, fresh@.subrange(0, j as int), fresh@[j as int]);
                lemma_window_fifo(w0, fresh@.subrange(0, j + 1));
            }
            j += 1;
        }
        proof {
            assert(fresh@.subrange(0, fresh@.len() as int) =~= fresh@);
        }
        self.new_ads = fresh;
    }

    /// Pops the lowest pending identifier, if any. The poller fetches the
    /// detail record for it next; on a detail failure the identifier is
    /// simply gone, never re-queued.
    pub fn take_next_id(&mut self) -> (r: Option<u64>)
        ensures
            old(self).new_ads@.len() == 0 ==> r is None && *final(self) == *old(self),
            old(self).new_ads@.len() > 0 ==> r == Some(old(self).new_ads@[0]) && final(self).new_ads@
                == old(self).new_ads@.drop_first(),
            final(self).last_ads == old(self).last_ads,
            final(self).ads_per_request == old(self).ads_per_request,
            final(self).request_freq_secs == old(self).request_freq_secs,
    {
        if self.new_ads.len() == 0 {
            return None;
        }
        let id = self.new_ads[0];
        self.new_ads.remove(0);
        proof {
            assert(final(self).new_ads@ =~= old(self).new_ads@.drop_first());
        }
        Some(id)
    }
}

/// The decimal digit characters of `n`, most significant first.
pub open spec fn dec_digits(n: nat) -> Seq<char>
    decreases n,
    via dec_digits_decreases
{
    if n < 10 {
        seq![digit_char(n as int)]
    } else {
        dec_digits(n / 10).push(digit_char((n % 10) as int))
    }
}

#[via_fn]
proof fn dec_digits_decreases(n: nat) {
    assert(n >= 10 ==> n / 10 < n) by (nonlinear_arith);
}

/// The character for one decimal digit.
pub open spec fn digit_char(d: int) -> char {
    if d == 0 {
        '0'
    } else if d == 1 {
        '1'
    } else if d == 2 {
        '2'
    } else if d == 3 {
        '3'
    } else if d == 4 {
        '4'
    } else if d == 5 {
        '5'
    } else if d == 6 {
        '6'
    } else if d == 7 {
        '7'
    } else if d == 8 {
        '8'
    } else {
        '9'
    }
}

/// The one-character string for a decimal digit.
fn digit_str(d: u64) -> (r: &'static str)
    requires
        d < 10,
    ensures
        r@ =~= seq![digit_char(d as int)],
{
    proof {
        reveal_strlit("0");
        reveal_strlit("1");
        reveal_strlit("2");
        reveal_strlit("3");
        reveal_strlit("4");
        reveal_strlit("5");
        reveal_strlit("6");
        reveal_strlit("7");
        reveal_strlit("8");
        reveal_strlit("9");
    }
    match d {
        0 => "0",
        1 => "1",
        2 => "2",
        3 => "3",
        4 => "4",
        5 => "5",
        6 => "6",
        7 => "7",
        8 => "8",
        _ => "9",
    }
}

/// Appends the decimal rendering of `n` to `s`.
fn push_decimal(s: &mut String, n: u64)
    ensures
        final(s)@ == old(s)@ + dec_digits(n as nat),
    decreases n,
{
    let ghost pre = s@;
    if n >= 10 {
        proof {
            assert(n >= 10 ==> n / 10 < n) by (nonlinear_arith);
        }
        push_decimal(s, n / 10);
    }
    s.append(digit_str(n % 10));
    proof {
        if n < 10 {
            assert(final(s)@ =~= pre + dec_digits(n as nat));
        } else {
            assert((n % 10) < 10);
            assert(final(s)@ =~= pre + dec_digits(n as nat));
        }
    }
}

/// The public page a notice can be read at, derived from its identifier; the
/// link is not part of the wire payload.
pub open spec fn notice_link(id: u64) -> Seq<char> {
    "http://e-licitatie.ro/pub/notices/adv-notices/view/"@ + dec_digits(id as nat)
}

/// Builds the link for one notice identifier.
pub fn link_for(id: u64) -> (r: String)
    ensures
        r@ == notice_link(id),
{
    let mut s = String::from_str("http://e-licitatie.ro/pub/notices/adv-notices/view/");
    push_decimal(&mut s, id);
    s
}

} // verus!
