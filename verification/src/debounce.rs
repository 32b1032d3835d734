//! The debounce engine: per combination, the time of its last trigger, and
//! the rule that decides whether a new press triggers or is absorbed.

use vstd::prelude::*;
use crate::assoc::{as_map, distinct_keys, has_key, lemma_as_map_empty, lemma_as_map_entry, lemma_as_map_push};
use crate::combo::KeyCombination;

verus! {

/// The default debounce window, in milliseconds.
pub const DEBOUNCE_MILLIS: u64 = 500;

/// What a ledger holds: for each combination the time of its last trigger.
pub type Ledger = Map<Seq<Seq<char>>, u64>;

/// The time from `last` to `now`; zero where `last` is not in the past.
pub open spec fn elapsed(now: u64, last: u64) -> int {
    if now >= last {
        now - last
    } else {
        0
    }
}

/// The ledger without the entries that are older than the window.
pub open spec fn pruned(m: Ledger, now: u64, window: u64) -> Ledger {
    Map::new(
        |c: Seq<Seq<char>>| m.dom().contains(c) && elapsed(now, m[c]) <= window,
        |c: Seq<Seq<char>>| m[c],
    )
}

/// Whether a press of `combo` at `now` triggers: after pruning, it has no
/// entry, or its entry is at least a window old.
pub open spec fn triggers(m: Ledger, combo: Seq<Seq<char>>, now: u64, window: u64) -> bool {
    let p = pruned(m, now, window);
    !p.dom().contains(combo) || elapsed(now, p[combo]) >= window
}

/// The ledger after a press of `combo` at `now`: pruned, and with `now`
/// recorded for `combo` where the press triggers.
pub open spec fn ledger_after(m: Ledger, combo: Seq<Seq<char>>, now: u64, window: u64) -> Ledger {
    if triggers(m, combo, now, window) {
        pruned(m, now, window).insert(combo, now)
    } else {
        pruned(m, now, window)
    }
}

/// Two presses of one combination, `delta` apart, the first at a moment
/// when the ledger holds no recent trigger of it: the first triggers, and
/// the second triggers exactly when `delta` is at least the window.
pub proof fn lemma_debounce_pair(
    m: Ledger,
    combo: Seq<Seq<char>>,
    t: u64,
    delta: u64,
    window: u64,
)
    requires
        t + delta <= u64::MAX,
        m.dom().contains(combo) ==> elapsed(t, m[combo]) >= window,
    ensures
        triggers(m, combo, t, window),
        triggers(ledger_after(m, combo, t, window), combo, (t + delta) as u64, window) == (delta
            >= window),
{
}

/// The entries as pairs of combination and time.
spec fn ledger_pairs(v: Seq<(KeyCombination, u64)>) -> Seq<(Seq<Seq<char>>, u64)> {
    Seq::new(v.len(), |i: int| (v[i].0@, v[i].1))
}

/// Whether an entry stays when `combo` is pressed at `now`: it must not be
/// older than the window, and the entry of `combo` itself goes once it is
/// a full window old, since the press then triggers and records `now`.
spec fn keeps(entry: (Seq<Seq<char>>, u64), combo: Seq<Seq<char>>, now: u64, window: u64) -> bool {
    if entry.0 == combo {
        elapsed(now, entry.1) < window
    } else {
        elapsed(now, entry.1) <= window
    }
}

/// What stays of the entries from place `from` on.
spec fn kept_map(
    all: Seq<(Seq<Seq<char>>, u64)>,
    from: int,
    combo: Seq<Seq<char>>,
    now: u64,
    window: u64,
) -> Ledger {
    Map::new(
        |c: Seq<Seq<char>>|
            exists|j: int|
                from <= j < all.len() && (#[trigger] all[j]).0 == c && keeps(
                    all[j],
                    combo,
                    now,
                    window,
                ),
        |c: Seq<Seq<char>>| as_map(all)[c],
    )
}

/// One more entry looked at: it joins what stays, or changes nothing.
proof fn lemma_kept_map_step(
    all: Seq<(Seq<Seq<char>>, u64)>,
    n: int,
    combo: Seq<Seq<char>>,
    now: u64,
    window: u64,
)
    requires
        distinct_keys(all),
        0 < n <= all.len(),
    ensures
        keeps(all[n - 1], combo, now, window) ==> kept_map(all, n - 1, combo, now, window)
            == kept_map(all, n, combo, now, window).insert(all[n - 1].0, all[n - 1].1),
        !keeps(all[n - 1], combo, now, window) ==> kept_map(all, n - 1, combo, now, window)
            == kept_map(all, n, combo, now, window),
        !kept_map(all, n, combo, now, window).dom().contains(all[n - 1].0),
{
    let lo = kept_map(all, n - 1, combo, now, window);
    let hi = kept_map(all, n, combo, now, window);
    let e = all[n - 1];
    lemma_as_map_entry(all, n - 1);
    if hi.dom().contains(e.0) {
        let j = choose|j: int|
            n <= j < all.len() && (#[trigger] all[j]).0 == e.0 && keeps(all[j], combo, now, window);
        assert(all[n - 1].0 != all[j].0);
    }
    if keeps(e, combo, now, window) {
        assert(lo.dom().contains(e.0));
        assert forall|c: Seq<Seq<char>>| lo.dom().contains(c) <==> hi.insert(
            e.0,
            e.1,
        ).dom().contains(c) by {
            if hi.dom().contains(c) {
                let j = choose|j: int|
                    n <= j < all.len() && (#[trigger] all[j]).0 == c && keeps(
                        all[j],
                        combo,
                        now,
                        window,
                    );
                assert(n - 1 <= j);
            }
        }
        assert(lo =~= hi.insert(e.0, e.1));
    } else {
        assert forall|c: Seq<Seq<char>>| lo.dom().contains(c) <==> hi.dom().contains(c) by {
            if hi.dom().contains(c) {
                let j = choose|j: int|
                    n <= j < all.len() && (#[trigger] all[j]).0 == c && keeps(
                        all[j],
                        combo,
                        now,
                        window,
                    );
                assert(n - 1 <= j);
            }
        }
        assert(lo =~= hi);
    }
}

/// Once every entry has been looked at, what stays, together with the
/// new time of `combo` where the press triggers, is the ledger after the
/// press, and the press triggers exactly when no entry of `combo` stays.
proof fn lemma_kept_map_all(
    all: Seq<(Seq<Seq<char>>, u64)>,
    combo: Seq<Seq<char>>,
    now: u64,
    window: u64,
)
    requires
        distinct_keys(all),
    ensures
        triggers(as_map(all), combo, now, window) <==> !kept_map(
            all,
            0,
            combo,
            now,
            window,
        ).dom().contains(combo),
        ledger_after(as_map(all), combo, now, window) == (if triggers(
            as_map(all),
            combo,
            now,
            window,
        ) {
            kept_map(all, 0, combo, now, window).insert(combo, now)
        } else {
            kept_map(all, 0, combo, now, window)
        }),
{
    let m = as_map(all);
    let k = kept_map(all, 0, combo, now, window);
    let p = pruned(m, now, window);
    assert forall|c: Seq<Seq<char>>| #[trigger]
        k.dom().contains(c) <==> m.dom().contains(c) && keeps((c, m[c]), combo, now, window) by {
        if k.dom().contains(c) {
            let j = choose|j: int|
                0 <= j < all.len() && (#[trigger] all[j]).0 == c && keeps(
                    all[j],
                    combo,
                    now,
                    window,
                );
            lemma_as_map_entry(all, j);
        }
        if m.dom().contains(c) {
            assert(has_key(all, c));
            let j = choose|j: int| 0 <= j < all.len() && (#[trigger] all[j]).0 == c;
            lemma_as_map_entry(all, j);
        }
    }
    if triggers(m, combo, now, window) {
        assert(k.insert(combo, now) =~= p.insert(combo, now));
    } else {
        assert(k =~= p);
    }
}

/// The debounce ledger: for each combination that triggered within the
/// last window, the time at which it did.
pub struct DebounceLedger {
    window: u64,
    entries: Vec<(KeyCombination, u64)>,
}

impl View for DebounceLedger {
    type V = Ledger;

    closed spec fn view(&self) -> Ledger {
        as_map(ledger_pairs(self.entries@))
    }
}

impl DebounceLedger {
    /// No combination has two entries.
    #[verifier::type_invariant]
    spec fn well_formed(&self) -> bool {
        distinct_keys(ledger_pairs(self.entries@))
    }

    /// The debounce window of this ledger.
    pub closed spec fn window(&self) -> u64 {
        self.window
    }

    /// An empty ledger with the given debounce window.
    pub fn new(window: u64) -> (r: DebounceLedger)
        ensures
            r@ == Map::<Seq<Seq<char>>, u64>::empty(),
            r.window() == window,
    {
        let entries: Vec<(KeyCombination, u64)> = Vec::new();
        DebounceLedger { window, entries }
    }

    /// The debounce window of this ledger.
    pub fn window_millis(&self) -> (w: u64)
        ensures
            w == self.window(),
    {
        self.window
    }

    /// The time at which `combo` last triggered, as far as the ledger
    /// still holds it.
    pub fn last_trigger(&self, combo: &KeyCombination) -> (r: Option<u64>)
        ensures
            r == (if self@.dom().contains(combo@) {
                Some(self@[combo@])
            } else {
                None
            }),
    {
        proof {
            use_type_invariant(self);
        }
        let ghost pairs = ledger_pairs(self.entries@);
        let mut i: usize = 0;
        while i < self.entries.len()
            invariant
                i <= self.entries@.len(),
                pairs == ledger_pairs(self.entries@),
                distinct_keys(pairs),
                forall|k: int| 0 <= k < i ==> (#[trigger] pairs[k]).0 != combo@,
            decreases self.entries@.len() - i,
        {
            if self.entries[i].0 == *combo {
                proof {
                    assert(pairs[i as int].0 == combo@);
                }
                return Some(self.entries[i].1);
            }
            i += 1;
        }
        None
    }

    /// Whether the ledger holds no entry at all.
    pub fn is_empty(&self) -> (b: bool)
        ensures
            b == (self@ == Map::<Seq<Seq<char>>, u64>::empty()),
    {
        let ghost pairs = ledger_pairs(self.entries@);
        proof {
            if pairs.len() == 0 {
                lemma_as_map_empty(pairs);
            } else {
                assert(self@.dom().contains(pairs[0].0));
            }
        }
        self.entries.len() == 0
    }

    /// Decides whether a press of `combo` at time `now` triggers, and
    /// brings the ledger up to date: entries older than the window are
    /// dropped, and `now` is recorded for `combo` where the press triggers.
    /// A press that is absorbed leaves the time of `combo` as it was.
    pub fn should_trigger(&mut self, combo: &KeyCombination, now: u64) -> (fire: bool)
        ensures
            fire == triggers(old(self)@, combo@, now, old(self).window()),
            final(self)@ == ledger_after(old(self)@, combo@, now, old(self).window()),
            final(self).window() == old(self).window(),
    {
        proof {
            use_type_invariant(&*self);
        }
        let window = self.window;
        let mut rest: Vec<(KeyCombination, u64)> = Vec::new();
        proof {
            lemma_as_map_empty(ledger_pairs(rest@));
        }
        std::mem::swap(&mut self.entries, &mut rest);
        let ghost all = ledger_pairs(rest@);
        let mut kept: Vec<(KeyCombination, u64)> = Vec::new();
        let mut fire = true;
        proof {
            lemma_as_map_empty(ledger_pairs(kept@));
            assert(kept_map(all, all.len() as int, combo@, now, window) =~= Map::<
                Seq<Seq<char>>,
                u64,
            >::empty());
        }
        while rest.len() > 0
            invariant
                distinct_keys(all),
                rest@.len() <= all.len(),
                ledger_pairs(rest@) == all.take(rest@.len() as int),
                distinct_keys(ledger_pairs(kept@)),
                as_map(ledger_pairs(kept@)) == kept_map(
                    all,
                    rest@.len() as int,
                    combo@,
                    now,
                    window,
                ),
                fire <==> !kept_map(all, rest@.len() as int, combo@, now, window).dom().contains(
                    combo@,
                ),
            decreases rest@.len(),
        {
            let ghost n = rest@.len() as int;
            let ghost before = ledger_pairs(kept@);
            assert(ledger_pairs(rest@)[n - 1] == all[n - 1]);
            let entry = rest.pop().unwrap();
            assert(ledger_pairs(rest@) =~= all.take(n - 1));
            assert((entry.0@, entry.1) == all[n - 1]);
            proof {
                lemma_kept_map_step(all, n, combo@, now, window);
            }
            let age = if now >= entry.1 {
                now - entry.1
            } else {
                0
            };
            let same = entry.0 == *combo;
            let keep = if same {
                age < window
            } else {
                age <= window
            };
            assert(keep == keeps(all[n - 1], combo@, now, window));
            if keep {
                if same {
                    fire = false;
                }
                proof {
                    assert(!has_key(before, all[n - 1].0));
                    lemma_as_map_push(before, all[n - 1].0, all[n - 1].1);
                }
                kept.push(entry);
                assert(ledger_pairs(kept@) =~= before.push(all[n - 1]));
            }
        }
        proof {
            lemma_kept_map_all(all, combo@, now, window);
        }
        if fire {
            let ghost before = ledger_pairs(kept@);
            proof {
                assert(!has_key(before, combo@));
                lemma_as_map_push(before, combo@, now);
            }
            kept.push((combo.clone(), now));
            assert(ledger_pairs(kept@) =~= before.push((combo@, now)));
        }
        self.entries = kept;
        fire
    }
}

} // verus!
