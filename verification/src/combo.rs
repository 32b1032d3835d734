//! Key combinations in canonical form: the names of the keys held together,
//! strictly ascending, so that every way of writing the same combination
//! gives the same value.

use vstd::prelude::*;
use vstd::seq_lib::to_multiset_contains;
use crate::order::{compare_names, lemma_name_lt_strict_total, lemma_name_lt_transitive, name_lt, NameOrder};
use crate::text::{canonical_name, is_blank, key_name, lemma_key_name_empty, lemma_key_name_stable_ascii, split, split_on, trimmed};
use vstd::utf8::is_ascii_chars;

verus! {

/// Whether every name in `c` sorts strictly before all that follow it.
pub open spec fn strictly_sorted(c: Seq<Seq<char>>) -> bool {
    forall|i: int, j: int| 0 <= i < j < c.len() ==> name_lt(#[trigger] c[i], #[trigger] c[j])
}

/// Whether `c` is in canonical form: strictly ascending, which rules out
/// duplicates, and without empty names.
pub open spec fn is_canonical(c: Seq<Seq<char>>) -> bool {
    &&& strictly_sorted(c)
    &&& forall|i: int| 0 <= i < c.len() ==> (#[trigger] c[i]).len() > 0
}

/// Whether `c` lists the names in `names`, each once, in ascending order.
pub open spec fn is_combination_of(c: Seq<Seq<char>>, names: Set<Seq<char>>) -> bool {
    &&& strictly_sorted(c)
    &&& forall|n: Seq<char>| #[trigger] c.contains(n) <==> names.contains(n)
}

/// The one ascending, duplicate-free listing of a finite set of names.
pub open spec fn combination_of(names: Set<Seq<char>>) -> Seq<Seq<char>> {
    choose|c: Seq<Seq<char>>| is_combination_of(c, names)
}

/// The names that occur in `names`, the empty name left out.
pub open spec fn name_set(names: Seq<Seq<char>>) -> Set<Seq<char>> {
    Set::new(|n: Seq<char>| n.len() > 0 && names.contains(n))
}

/// The canonical form of a list of names: empty names dropped, duplicates
/// collapsed, the rest in ascending order.
pub open spec fn canonical(names: Seq<Seq<char>>) -> Seq<Seq<char>> {
    combination_of(name_set(names))
}

/// The canonical names of a list of raw key names, one for one.
pub open spec fn key_names(keys: Seq<Seq<char>>) -> Seq<Seq<char>> {
    keys.map_values(|k: Seq<char>| key_name(k))
}

/// The key combination that a list of raw key names stands for.
pub open spec fn normalized(keys: Seq<Seq<char>>) -> Seq<Seq<char>> {
    canonical(key_names(keys))
}

/// The key combination that a `+`-joined string stands for.
pub open spec fn parsed(input: Seq<char>) -> Seq<Seq<char>> {
    normalized(split_on(input, '+'))
}

/// The views of a sequence of strings.
pub open spec fn views(v: Seq<String>) -> Seq<Seq<char>> {
    Seq::new(v.len(), |i: int| v[i]@)
}

/// A strictly ascending sequence holds each of its names once; two such
/// sequences that hold the same names are the same sequence.
pub proof fn lemma_combination_unique(a: Seq<Seq<char>>, b: Seq<Seq<char>>)
    requires
        strictly_sorted(a),
        strictly_sorted(b),
        forall|n: Seq<char>| a.contains(n) <==> b.contains(n),
    ensures
        a == b,
    decreases a.len(),
{
    if a.len() == 0 {
        if b.len() > 0 {
            assert(b.contains(b[0]));
        }
        assert(a =~= b);
    } else {
        assert(a.contains(a[0]));
        let j = choose|j: int| 0 <= j < b.len() && b[j] == a[0];
        assert(b.contains(b[0]));
        let i = choose|i: int| 0 <= i < a.len() && a[i] == b[0];
        lemma_name_lt_strict_total(a[0], b[0]);
        if i > 0 && j > 0 {
            assert(name_lt(a[0], a[i]));
            assert(name_lt(b[0], b[j]));
        }
        assert(a[0] == b[0]);
        let ta = a.drop_first();
        let tb = b.drop_first();
        assert forall|n: Seq<char>| ta.contains(n) <==> tb.contains(n) by {
            if ta.contains(n) {
                let k = choose|k: int| 0 <= k < ta.len() && ta[k] == n;
                assert(a[k + 1] == n);
                assert(name_lt(a[0], a[k + 1]));
                lemma_name_lt_strict_total(a[0], n);
                assert(a.contains(n));
                let m = choose|m: int| 0 <= m < b.len() && b[m] == n;
                assert(tb[m - 1] == n);
            }
            if tb.contains(n) {
                let k = choose|k: int| 0 <= k < tb.len() && tb[k] == n;
                assert(b[k + 1] == n);
                assert(name_lt(b[0], b[k + 1]));
                lemma_name_lt_strict_total(b[0], n);
                assert(b.contains(n));
                let m = choose|m: int| 0 <= m < a.len() && a[m] == n;
                assert(ta[m - 1] == n);
            }
        }
        assert(strictly_sorted(ta)) by {
            assert forall|p: int, q: int| 0 <= p < q < ta.len() implies name_lt(
                #[trigger] ta[p],
                #[trigger] ta[q],
            ) by {
                assert(name_lt(a[p + 1], a[q + 1]));
            }
        }
        assert(strictly_sorted(tb)) by {
            assert forall|p: int, q: int| 0 <= p < q < tb.len() implies name_lt(
                #[trigger] tb[p],
                #[trigger] tb[q],
            ) by {
                assert(name_lt(b[p + 1], b[q + 1]));
            }
        }
        lemma_combination_unique(ta, tb);
        assert(a =~= seq![a[0]] + ta);
        assert(b =~= seq![b[0]] + tb);
    }
}

/// Every list of names has a canonical form: [`canonical`] is strictly
/// ascending, holds no empty name, and holds exactly the names of the list
/// that are not empty.
pub proof fn lemma_canonical(names: Seq<Seq<char>>)
    ensures
        is_combination_of(canonical(names), name_set(names)),
        is_canonical(canonical(names)),
{
    let listing = lemma_canonical_exists(names);
    assert(is_combination_of(listing, name_set(names)));
    let c = canonical(names);
    assert(is_combination_of(c, name_set(names)));
    assert forall|i: int| 0 <= i < c.len() implies (#[trigger] c[i]).len() > 0 by {
        assert(c.contains(c[i]));
    }
}

/// A place for `n` in an ascending sequence: whatever stands before it
/// sorts before `n`, and what stands at it, if anything, does not.
proof fn lemma_place(c: Seq<Seq<char>>, n: Seq<char>, from: int) -> (i: int)
    requires
        0 <= from <= c.len(),
        forall|k: int| 0 <= k < from ==> name_lt(#[trigger] c[k], n),
    ensures
        from <= i <= c.len(),
        forall|k: int| 0 <= k < i ==> name_lt(#[trigger] c[k], n),
        i < c.len() ==> !name_lt(c[i], n),
    decreases c.len() - from,
{
    if from < c.len() && name_lt(c[from], n) {
        lemma_place(c, n, from + 1)
    } else {
        from
    }
}

/// A listing of the non-empty names of `names`, strictly ascending, built
/// name by name.
proof fn lemma_canonical_exists(names: Seq<Seq<char>>) -> (c: Seq<Seq<char>>)
    ensures
        is_combination_of(c, name_set(names)),
    decreases names.len(),
{
    if names.len() == 0 {
        let c = Seq::<Seq<char>>::empty();
        assert forall|n: Seq<char>| #[trigger] c.contains(n) <==> name_set(names).contains(n) by {
            if names.contains(n) {
                let k = choose|k: int| 0 <= k < names.len() && names[k] == n;
            }
        }
        c
    } else {
        let init = names.drop_last();
        let last = names.last();
        let before = lemma_canonical_exists(init);
        assert forall|k: int| 0 <= k < before.len() implies (#[trigger] before[k]).len() > 0 by {
            assert(before.contains(before[k]));
        }
        let place = lemma_place(before, last, 0);
        let held = place < before.len() && before[place] == last;
        let c = if last.len() == 0 || held {
            before
        } else {
            before.insert(place, last)
        };
        if last.len() > 0 && !held {
            if place < before.len() {
                lemma_name_lt_strict_total(before[place], last);
            }
            lemma_inserted(before, last, place);
        }
        if held {
            assert(before.contains(last));
        }
        assert forall|n: Seq<char>| #[trigger] c.contains(n) <==> name_set(names).contains(n) by {
            if names.contains(n) {
                let k = choose|k: int| 0 <= k < names.len() && names[k] == n;
                if k < init.len() {
                    assert(init[k] == n);
                    assert(init.contains(n));
                }
            }
            if init.contains(n) {
                let k = choose|k: int| 0 <= k < init.len() && init[k] == n;
                assert(names[k] == n);
            }
            assert(names[names.len() - 1] == last);
            assert(before.contains(n) <==> name_set(init).contains(n));
        }
        c
    }
}

/// A listing that is strictly ascending and holds exactly the non-empty
/// names of `names` is the canonical form of `names`.
pub proof fn lemma_canonical_is(c: Seq<Seq<char>>, names: Seq<Seq<char>>)
    requires
        is_combination_of(c, name_set(names)),
    ensures
        c == canonical(names),
{
    lemma_canonical(names);
    lemma_combination_unique(c, canonical(names));
}

/// A sequence in canonical form is its own canonical form.
pub proof fn lemma_canonical_fixed(c: Seq<Seq<char>>)
    requires
        is_canonical(c),
    ensures
        canonical(c) == c,
{
    assert forall|n: Seq<char>| #[trigger] c.contains(n) <==> name_set(c).contains(n) by {
        if c.contains(n) {
            let k = choose|k: int| 0 <= k < c.len() && c[k] == n;
        }
    }
    lemma_canonical_is(c, c);
}

/// Putting names in canonical form twice is the same as doing it once.
pub proof fn lemma_canonical_idempotent(names: Seq<Seq<char>>)
    ensures
        canonical(canonical(names)) == canonical(names),
{
    lemma_canonical(names);
    lemma_canonical_fixed(canonical(names));
}

/// A list of keys stands for the empty combination exactly when every one
/// of them has an empty canonical name.
pub proof fn lemma_normalized_empty(keys: Seq<Seq<char>>)
    ensures
        normalized(keys).len() == 0 <==> forall|i: int|
            0 <= i < keys.len() ==> key_name(#[trigger] keys[i]).len() == 0,
{
    let names = key_names(keys);
    let c = normalized(keys);
    lemma_canonical(names);
    if c.len() > 0 {
        assert(c.contains(c[0]));
        assert(name_set(names).contains(c[0]));
        let i = choose|i: int| 0 <= i < names.len() && names[i] == c[0];
        assert(key_name(keys[i]).len() > 0);
    }
    if exists|i: int| 0 <= i < keys.len() && key_name(#[trigger] keys[i]).len() > 0 {
        let i = choose|i: int| 0 <= i < keys.len() && key_name(#[trigger] keys[i]).len() > 0;
        assert(names[i] == key_name(keys[i]));
        assert(names.contains(names[i]));
        assert(name_set(names).contains(names[i]));
        assert(c.contains(names[i]));
    }
}

/// Normalizing does not depend on the order in which the keys are given:
/// two lists that hold the same keys, each as often as the other, stand for
/// the same combination.
pub proof fn lemma_normalized_order_independent(a: Seq<Seq<char>>, b: Seq<Seq<char>>)
    requires
        a.to_multiset() == b.to_multiset(),
    ensures
        normalized(a) == normalized(b),
{
    let na = key_names(a);
    let nb = key_names(b);
    assert forall|n: Seq<char>| na.contains(n) <==> nb.contains(n) by {
        if na.contains(n) {
            let i = choose|i: int| 0 <= i < na.len() && na[i] == n;
            to_multiset_contains(a, a[i]);
            to_multiset_contains(b, a[i]);
            assert(a.contains(a[i]));
            let j = choose|j: int| 0 <= j < b.len() && b[j] == a[i];
            assert(nb[j] == n);
        }
        if nb.contains(n) {
            let i = choose|i: int| 0 <= i < nb.len() && nb[i] == n;
            to_multiset_contains(a, b[i]);
            to_multiset_contains(b, b[i]);
            assert(b.contains(b[i]));
            let j = choose|j: int| 0 <= j < a.len() && a[j] == b[i];
            assert(na[j] == n);
        }
    }
    assert(name_set(na) =~= name_set(nb));
}

/// Normalizing is idempotent: where every key is ASCII once it is
/// trimmed, normalizing the result again changes nothing.
pub proof fn lemma_normalized_idempotent(keys: Seq<Seq<char>>)
    requires
        forall|i: int| 0 <= i < keys.len() ==> is_ascii_chars(trimmed(#[trigger] keys[i])),
    ensures
        normalized(normalized(keys)) == normalized(keys),
{
    let names = key_names(keys);
    let c = normalized(keys);
    lemma_canonical(names);
    let again = key_names(c);
    assert forall|n: Seq<char>| #[trigger] c.contains(n) <==> name_set(again).contains(n) by {
        if c.contains(n) {
            assert(name_set(names).contains(n));
            let i = choose|i: int| 0 <= i < names.len() && names[i] == n;
            lemma_key_name_stable_ascii(keys[i]);
            let k = choose|k: int| 0 <= k < c.len() && c[k] == n;
            assert(again[k] == n);
        }
        if name_set(again).contains(n) {
            let k = choose|k: int| 0 <= k < again.len() && again[k] == n;
            assert(c.contains(c[k]));
            assert(name_set(names).contains(c[k]));
            let i = choose|i: int| 0 <= i < names.len() && names[i] == c[k];
            lemma_key_name_stable_ascii(keys[i]);
            assert(n == c[k]);
        }
    }
    lemma_canonical_is(c, again);
}

/// A list of keys that are all blank stands for the empty combination.
pub proof fn lemma_normalized_blank(keys: Seq<Seq<char>>)
    requires
        forall|i: int| 0 <= i < keys.len() ==> is_blank(#[trigger] keys[i]),
    ensures
        normalized(keys).len() == 0,
{
    lemma_normalized_empty(keys);
    assert forall|i: int| 0 <= i < keys.len() implies key_name(#[trigger] keys[i]).len() == 0 by {
        lemma_key_name_empty(keys[i]);
    }
}

/// A key combination: the canonical names of the keys held together, in
/// ascending order, none of them empty and none twice.
#[derive(Debug, Hash)]
pub struct KeyCombination {
    names: Vec<String>,
}

impl View for KeyCombination {
    type V = Seq<Seq<char>>;

    closed spec fn view(&self) -> Seq<Seq<char>> {
        views(self.names@)
    }
}

impl KeyCombination {
    /// The names are in canonical form.
    #[verifier::type_invariant]
    spec fn well_formed(&self) -> bool {
        is_canonical(views(self.names@))
    }

    /// The combination without any key.
    pub fn empty() -> (r: KeyCombination)
        ensures
            r@ == Seq::<Seq<char>>::empty(),
    {
        let names: Vec<String> = Vec::new();
        KeyCombination { names }
    }

    /// The canonical form of a list of names that are taken as they are:
    /// empty names are dropped, duplicates collapsed, the rest sorted.
    pub(crate) fn from_names(names: Vec<String>) -> (r: KeyCombination)
        ensures
            r@ == canonical(names.deep_view()),
    {
        let mut acc: Vec<String> = Vec::new();
        let mut names = names;
        let ghost all = names.deep_view();
        while names.len() > 0
            invariant
                is_canonical(views(acc@)),
                names@.len() <= all.len(),
                names.deep_view() == all.take(names@.len() as int),
                forall|n: Seq<char>| #[trigger]
                    views(acc@).contains(n) <==> n.len() > 0 && all.skip(
                        names@.len() as int,
                    ).contains(n),
            decreases names@.len(),
        {
            let ghost k = names@.len() - 1;
            assert(names.deep_view()[k] == all[k]);
            let name = names.pop().unwrap();
            insert_name(&mut acc, name);
            proof {
                let rest = all.skip(k);
                let rest1 = all.skip(k + 1);
                assert forall|n: Seq<char>| #[trigger]
                    views(acc@).contains(n) <==> n.len() > 0 && rest.contains(n) by {
                    if rest1.contains(n) {
                        let q = choose|q: int| 0 <= q < rest1.len() && rest1[q] == n;
                        assert(rest[q + 1] == n);
                    }
                    if rest.contains(n) {
                        let q = choose|q: int| 0 <= q < rest.len() && rest[q] == n;
                        if q > 0 {
                            assert(rest1[q - 1] == n);
                        }
                    }
                    assert(rest[0] == all[k]);
                }
            }
        }
        proof {
            lemma_canonical_is(views(acc@), all);
        }
        KeyCombination { names: acc }
    }

    /// The names of the combination, in ascending order.
    pub fn names(&self) -> (r: &Vec<String>)
        ensures
            r.deep_view() == self@,
            is_canonical(self@),
    {
        proof {
            use_type_invariant(self);
        }
        &self.names
    }

    /// The number of keys in the combination.
    pub fn len(&self) -> (n: usize)
        ensures
            n == self@.len(),
    {
        self.names.len()
    }

    /// Whether the combination holds no key at all.
    pub fn is_empty(&self) -> (b: bool)
        ensures
            b == (self@.len() == 0),
    {
        self.names.len() == 0
    }

    /// A copy of the names, in ascending order.
    pub fn to_vec(&self) -> (r: Vec<String>)
        ensures
            r.deep_view() == self@,
    {
        let r = copy_names(&self.names);
        r
    }

    /// Whether the combination holds the key called `name`.
    pub fn contains(&self, name: &str) -> (b: bool)
        ensures
            b == self@.contains(name@),
    {
        let mut i: usize = 0;
        while i < self.names.len()
            invariant
                i <= self.names@.len(),
                forall|k: int| 0 <= k < i ==> views(self.names@)[k] != name@,
            decreases self.names@.len() - i,
        {
            if compare_names(self.names[i].as_str(), name) == NameOrder::Same {
                assert(views(self.names@)[i as int] == name@);
                return true;
            }
            i += 1;
        }
        false
    }
}

impl Clone for KeyCombination {
    fn clone(&self) -> (r: KeyCombination)
        ensures
            r@ == self@,
    {
        proof {
            use_type_invariant(self);
        }
        let names = copy_names(&self.names);
        KeyCombination { names }
    }
}

impl PartialEq for KeyCombination {
    fn eq(&self, other: &KeyCombination) -> (r: bool) {
        if self.names.len() != other.names.len() {
            return false;
        }
        let mut i: usize = 0;
        while i < self.names.len()
            invariant
                self.names@.len() == other.names@.len(),
                i <= self.names@.len(),
                forall|k: int| 0 <= k < i ==> views(self.names@)[k] == views(other.names@)[k],
            decreases self.names@.len() - i,
        {
            if self.names[i] != other.names[i] {
                assert(views(self.names@)[i as int] != views(other.names@)[i as int]);
                return false;
            }
            i += 1;
        }
        assert(views(self.names@) =~= views(other.names@));
        true
    }
}

impl Eq for KeyCombination {

}

impl vstd::std_specs::cmp::PartialEqSpecImpl for KeyCombination {
    open spec fn obeys_eq_spec() -> bool {
        true
    }

    open spec fn eq_spec(&self, other: &KeyCombination) -> bool {
        self@ == other@
    }
}

/// A copy of `names`, string for string.
fn copy_names(names: &Vec<String>) -> (r: Vec<String>)
    ensures
        views(r@) == views(names@),
{
    let mut r: Vec<String> = Vec::new();
    let mut i: usize = 0;
    while i < names.len()
        invariant
            i <= names@.len(),
            r@.len() == i,
            forall|k: int| 0 <= k < i ==> (#[trigger] r@[k])@ == names@[k]@,
        decreases names@.len() - i,
    {
        r.push(names[i].clone());
        i += 1;
    }
    r
}

/// Puts `name` in its place among `names`, unless it is empty or held
/// already.
fn insert_name(names: &mut Vec<String>, name: String)
    requires
        is_canonical(views(old(names)@)),
    ensures
        is_canonical(views(final(names)@)),
        forall|n: Seq<char>| #[trigger]
            views(final(names)@).contains(n) <==> views(old(names)@).contains(n) || (n == name@
                && name@.len() > 0),
{
    if name.as_str().is_empty() {
        return ;
    }
    let ghost before = views(names@);
    let mut i: usize = 0;
    while i < names.len()
        invariant
            names@ == old(names)@,
            before == views(names@),
            is_canonical(before),
            name@.len() > 0,
            i <= names@.len(),
            forall|k: int| 0 <= k < i ==> name_lt(#[trigger] before[k], name@),
        decreases names@.len() - i,
    {
        let order = compare_names(names[i].as_str(), name.as_str());
        if order == NameOrder::Same {
            assert(before[i as int] == name@);
            return ;
        }
        if order == NameOrder::After {
            let ghost added = name@;
            names.insert(i, name);
            proof {
                let after = views(names@);
                assert(after =~= before.insert(i as int, added));
                lemma_inserted(before, added, i as int);
            }
            return ;
        }
        i += 1;
    }
    let ghost added = name@;
    names.push(name);
    proof {
        let after = views(names@);
        assert(after =~= before.insert(i as int, added));
        lemma_inserted(before, added, i as int);
    }
}

/// A name put between the names that sort before it and those that sort
/// after it leaves the sequence canonical and adds only itself.
proof fn lemma_inserted(c: Seq<Seq<char>>, n: Seq<char>, i: int)
    requires
        is_canonical(c),
        n.len() > 0,
        0 <= i <= c.len(),
        forall|k: int| 0 <= k < i ==> name_lt(#[trigger] c[k], n),
        i < c.len() ==> name_lt(n, c[i]),
    ensures
        is_canonical(c.insert(i, n)),
        forall|m: Seq<char>| #[trigger] c.insert(i, n).contains(m) <==> c.contains(m) || m == n,
{
    let r = c.insert(i, n);
    assert forall|k: int| i <= k < c.len() implies name_lt(n, #[trigger] c[k]) by {
        if k > i {
            assert(name_lt(c[i], c[k]));
            lemma_name_lt_transitive(n, c[i], c[k]);
        }
    }
    assert forall|p: int, q: int| 0 <= p < q < r.len() implies name_lt(
        #[trigger] r[p],
        #[trigger] r[q],
    ) by {
        if q < i {
            assert(name_lt(c[p], c[q]));
        } else if q == i {
            assert(r[p] == c[p]);
        } else if p < i {
            assert(r[q] == c[q - 1]);
            lemma_name_lt_transitive(c[p], n, c[q - 1]);
        } else if p == i {
            assert(r[q] == c[q - 1]);
        } else {
            assert(name_lt(c[p - 1], c[q - 1]));
        }
    }
    assert forall|k: int| 0 <= k < r.len() implies (#[trigger] r[k]).len() > 0 by {
        if k < i {
            assert(r[k] == c[k]);
        } else if k > i {
            assert(r[k] == c[k - 1]);
        }
    }
    assert forall|m: Seq<char>| #[trigger] r.contains(m) <==> c.contains(m) || m == n by {
        if r.contains(m) {
            let k = choose|k: int| 0 <= k < r.len() && r[k] == m;
            if k < i {
                assert(c[k] == m);
            } else if k > i {
                assert(c[k - 1] == m);
            }
        }
        if c.contains(m) {
            let k = choose|k: int| 0 <= k < c.len() && c[k] == m;
            if k < i {
                assert(r[k] == m);
            } else {
                assert(r[k + 1] == m);
            }
        }
        if m == n {
            assert(r[i] == m);
        }
    }
}

/// The key combination that a list of raw key names stands for: each name
/// is trimmed and lowercased, blank ones are dropped, and what is left is
/// sorted with duplicates collapsed.
pub fn normalize(keys: &Vec<String>) -> (r: KeyCombination)
    ensures
        r@ == normalized(keys.deep_view()),
        is_combination_of(r@, name_set(key_names(keys.deep_view()))),
        r@.len() == 0 <==> forall|i: int|
            0 <= i < keys@.len() ==> key_name(#[trigger] keys@[i]@).len() == 0,
        (forall|i: int| 0 <= i < keys@.len() ==> is_blank(#[trigger] keys@[i]@)) ==> r@.len() == 0,
{
    let mut acc: Vec<String> = Vec::new();
    let ghost raw = keys.deep_view();
    let ghost names = key_names(raw);
    assert(views(acc@) =~= Seq::<Seq<char>>::empty());
    let mut i: usize = 0;
    while i < keys.len()
        invariant
            i <= keys@.len(),
            raw == keys.deep_view(),
            names == key_names(raw),
            is_canonical(views(acc@)),
            forall|n: Seq<char>| #[trigger]
                views(acc@).contains(n) <==> n.len() > 0 && names.take(i as int).contains(n),
        decreases keys@.len() - i,
    {
        let name = canonical_name(keys[i].as_str());
        assert(name@ == names[i as int]);
        insert_name(&mut acc, name);
        proof {
            let seen = names.take(i as int);
            let seen1 = names.take(i + 1);
            assert forall|n: Seq<char>| #[trigger]
                views(acc@).contains(n) <==> n.len() > 0 && seen1.contains(n) by {
                if seen.contains(n) {
                    let q = choose|q: int| 0 <= q < seen.len() && seen[q] == n;
                    assert(seen1[q] == n);
                }
                if seen1.contains(n) {
                    let q = choose|q: int| 0 <= q < seen1.len() && seen1[q] == n;
                    if q < i {
                        assert(seen[q] == n);
                    }
                }
                assert(seen1[i as int] == names[i as int]);
            }
        }
        i += 1;
    }
    proof {
        assert(names.take(i as int) =~= names);
        lemma_canonical_is(views(acc@), names);
        lemma_normalized_empty(raw);
        assert forall|i: int| 0 <= i < keys@.len() implies raw[i] == (#[trigger] keys@[i])@ by {}
        if forall|i: int| 0 <= i < keys@.len() ==> key_name(#[trigger] keys@[i]@).len() == 0 {
            assert forall|i: int| 0 <= i < raw.len() implies key_name(#[trigger] raw[i]).len()
                == 0 by {
                assert(raw[i] == keys@[i]@);
            }
        }
        if forall|i: int| 0 <= i < raw.len() ==> key_name(#[trigger] raw[i]).len() == 0 {
            assert forall|i: int| 0 <= i < keys@.len() implies key_name(
                (#[trigger] keys@[i])@,
            ).len() == 0 by {
                assert(raw[i] == keys@[i]@);
            }
        }
        if forall|i: int| 0 <= i < keys@.len() ==> is_blank(#[trigger] keys@[i]@) {
            assert forall|i: int| 0 <= i < raw.len() implies is_blank(#[trigger] raw[i]) by {
                assert(raw[i] == keys@[i]@);
            }
            lemma_normalized_blank(raw);
        }
    }
    KeyCombination { names: acc }
}

/// The key combination that a `+`-joined string such as `ctrl+shift+b`
/// stands for. Case and surrounding whitespace of each name do not matter.
pub fn parse_key_combination(input: &str) -> (r: KeyCombination)
    ensures
        r@ == parsed(input@),
{
    let pieces = split(input, '+');
    normalize(&pieces)
}

} // verus!
