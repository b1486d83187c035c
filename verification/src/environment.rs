//! The environment variables of a remote request: a map from name to value
//! kept in ascending name order, so equal maps have equal contents however
//! they were built.

use crate::text::chars_of;
use vstd::prelude::*;

verus! {

/// Code-point lexicographic order on texts, the order `String` compares by.
pub open spec fn text_less(a: Seq<char>, b: Seq<char>) -> bool
    decreases a.len(),
{
    if a.len() == 0 {
        b.len() > 0
    } else if b.len() == 0 {
        false
    } else if a[0] != b[0] {
        a[0] < b[0]
    } else {
        text_less(a.drop_first(), b.drop_first())
    }
}

/// No text is below itself.
pub proof fn text_less_irreflexive(a: Seq<char>)
    ensures
        !text_less(a, a),
    decreases a.len(),
{
    if a.len() > 0 {
        text_less_irreflexive(a.drop_first());
    }
}

/// The order is transitive.
pub proof fn text_less_transitive(a: Seq<char>, b: Seq<char>, c: Seq<char>)
    requires
        text_less(a, b),
        text_less(b, c),
    ensures
        text_less(a, c),
    decreases a.len(),
{
    if a.len() > 0 && b.len() > 0 && c.len() > 0 && a[0] == b[0] && b[0] == c[0] {
        text_less_transitive(a.drop_first(), b.drop_first(), c.drop_first());
    }
}

/// Two different texts are ordered one way or the other.
pub proof fn text_less_total(a: Seq<char>, b: Seq<char>)
    requires
        a != b,
    ensures
        text_less(a, b) || text_less(b, a),
    decreases a.len(),
{
    if a.len() > 0 && b.len() > 0 {
        if a[0] == b[0] {
            if a.drop_first() == b.drop_first() {
                assert(a =~= seq![a[0]] + a.drop_first());
                assert(b =~= seq![b[0]] + b.drop_first());
                assert(false);
            } else {
                text_less_total(a.drop_first(), b.drop_first());
            }
        }
    } else if a.len() == 0 && b.len() == 0 {
        assert(a =~= b);
    }
}

/// The two texts are never below each other.
pub proof fn text_less_asymmetric(a: Seq<char>, b: Seq<char>)
    requires
        text_less(a, b),
    ensures
        !text_less(b, a),
{
    if text_less(b, a) {
        text_less_transitive(a, b, a);
        text_less_irreflexive(a);
    }
}

/// Exec comparison of two texts in the order of `text_less`.
pub fn compare_text(a: &str, b: &str) -> (r: i8)
    ensures
        r < 0 <==> text_less(a@, b@),
        r == 0 <==> a@ == b@,
        r > 0 <==> text_less(b@, a@),
{
    let x = chars_of(a);
    let y = chars_of(b);
    let mut i: usize = 0;
    assert(x@.skip(0) =~= x@);
    assert(y@.skip(0) =~= y@);
    while i < x.len() && i < y.len() && x[i] == y[i]
        invariant
            x@ == a@,
            y@ == b@,
            i <= x.len(),
            i <= y.len(),
            x@.take(i as int) == y@.take(i as int),
            text_less(a@, b@) == text_less(x@.skip(i as int), y@.skip(i as int)),
            text_less(b@, a@) == text_less(y@.skip(i as int), x@.skip(i as int)),
        decreases x.len() - i,
    {
        assert(x@.skip(i as int).drop_first() =~= x@.skip(i + 1));
        assert(y@.skip(i as int).drop_first() =~= y@.skip(i + 1));
        assert(x@.take(i + 1) =~= x@.take(i as int).push(x@[i as int]));
        assert(y@.take(i + 1) =~= y@.take(i as int).push(y@[i as int]));
        i += 1;
    }
    if i == x.len() && i == y.len() {
        assert(x@ =~= x@.take(i as int));
        assert(y@ =~= y@.take(i as int));
        proof {
            text_less_irreflexive(a@);
        }
        return 0;
    }
    if i == x.len() {
        assert(x@.skip(i as int).len() == 0);
        assert(a@ != b@);
        return -1;
    }
    if i == y.len() {
        assert(y@.skip(i as int).len() == 0);
        assert(a@ != b@);
        return 1;
    }
    assert(x@.skip(i as int)[0] == x@[i as int]);
    assert(y@.skip(i as int)[0] == y@[i as int]);
    assert(a@ != b@) by {
        assert(a@[i as int] != b@[i as int]);
    }
    if x[i] < y[i] {
        -1
    } else {
        1
    }
}

/// Names in strictly ascending order, hence each name at most once.
pub open spec fn names_ascending(entries: Seq<(Seq<char>, Seq<char>)>) -> bool {
    forall|i: int, j: int| 0 <= i < j < entries.len() ==> text_less(#[trigger] entries[i].0, #[trigger] entries[j].0)
}

proof fn first_is_least(a: Seq<(Seq<char>, Seq<char>)>, k: int)
    requires
        names_ascending(a),
        0 < k < a.len(),
    ensures
        text_less(a[0].0, a[k].0),
{
}

/// Pairs kept in ascending name order are determined by which pairs they
/// hold: two such sequences with the same pairs are equal, so a map's
/// content does not depend on the order its names were inserted in.
pub proof fn ascending_pairs_are_determined_by_their_contents(a: Seq<(Seq<char>, Seq<char>)>, b: Seq<(Seq<char>, Seq<char>)>)
    requires
        names_ascending(a),
        names_ascending(b),
        forall|p: (Seq<char>, Seq<char>)| a.contains(p) <==> b.contains(p),
    ensures
        a == b,
    decreases a.len(),
{
    if a.len() == 0 {
        if b.len() > 0 {
            assert(b.contains(b[0]));
        }
        assert(a =~= b);
    } else if b.len() == 0 {
        assert(a.contains(a[0]));
    } else {
        assert(a.contains(a[0]));
        assert(b.contains(b[0]));
        let j = choose|j: int| 0 <= j < b.len() && b[j] == a[0];
        let k = choose|k: int| 0 <= k < a.len() && a[k] == b[0];
        if a[0] != b[0] {
            first_is_least(b, j);
            first_is_least(a, k);
            text_less_asymmetric(a[0].0, b[0].0);
            assert(false);
        }
        let ta = a.skip(1);
        let tb = b.skip(1);
        assert forall|i: int, l: int| 0 <= i < l < ta.len() implies text_less(#[trigger] ta[i].0, #[trigger] ta[l].0) by {
            assert(ta[i] == a[i + 1] && ta[l] == a[l + 1]);
        }
        assert forall|i: int, l: int| 0 <= i < l < tb.len() implies text_less(#[trigger] tb[i].0, #[trigger] tb[l].0) by {
            assert(tb[i] == b[i + 1] && tb[l] == b[l + 1]);
        }
        assert forall|p: (Seq<char>, Seq<char>)| ta.contains(p) implies tb.contains(p) by {
            let x = choose|x: int| 0 <= x < ta.len() && ta[x] == p;
            assert(a[x + 1] == p);
            assert(a.contains(p));
            let y = choose|y: int| 0 <= y < b.len() && b[y] == p;
            if y == 0 {
                first_is_least(a, x + 1);
                text_less_irreflexive(p.0);
                assert(false);
            }
            assert(tb[y - 1] == p);
        }
        assert forall|p: (Seq<char>, Seq<char>)| tb.contains(p) implies ta.contains(p) by {
            let x = choose|x: int| 0 <= x < tb.len() && tb[x] == p;
            assert(b[x + 1] == p);
            assert(b.contains(p));
            let y = choose|y: int| 0 <= y < a.len() && a[y] == p;
            if y == 0 {
                first_is_least(b, x + 1);
                text_less_irreflexive(p.0);
                assert(false);
            }
            assert(ta[y - 1] == p);
        }
        ascending_pairs_are_determined_by_their_contents(ta, tb);
        assert(a =~= seq![a[0]] + ta);
        assert(b =~= seq![b[0]] + tb);
    }
}

/// The plain view of stored pairs.
pub open spec fn pairs_view(v: Seq<(String, String)>) -> Seq<(Seq<char>, Seq<char>)> {
    v.map_values(|p: (String, String)| (p.0@, p.1@))
}

/// Name to value, in ascending name order.
#[derive(Debug, PartialEq, Eq)]
pub struct EnvironmentMap {
    entries: Vec<(String, String)>,
}

impl View for EnvironmentMap {
    type V = Seq<(Seq<char>, Seq<char>)>;

    closed spec fn view(&self) -> Seq<(Seq<char>, Seq<char>)> {
        pairs_view(self.entries@)
    }
}

impl Clone for EnvironmentMap {
    /// A copy with the same pairs.
    fn clone(&self) -> (r: Self)
        ensures
            r@ == self@,
    {
        proof {
            use_type_invariant(self);
        }
        let mut entries: Vec<(String, String)> = Vec::new();
        let mut i: usize = 0;
        while i < self.entries.len()
            invariant
                i <= self.entries.len(),
                entries@.len() == i,
                pairs_view(entries@) == pairs_view(self.entries@).take(i as int),
            decreases self.entries.len() - i,
        {
            let name = self.entries[i].0.clone();
            let value = self.entries[i].1.clone();
            assert(name@ == self.entries@[i as int].0@);
            assert(value@ == self.entries@[i as int].1@);
            let ghost prev = entries@;
            entries.push((name, value));
            assert forall|k: int| 0 <= k < i + 1 implies #[trigger] pairs_view(entries@)[k]
                == pairs_view(self.entries@)[k] by {
                if k < i {
                    assert(entries@[k] == prev[k]);
                    assert(pairs_view(prev)[k] == pairs_view(self.entries@).take(i as int)[k]);
                }
            }
            assert(pairs_view(entries@) =~= pairs_view(self.entries@).take(i + 1));
            i += 1;
        }
        assert(pairs_view(entries@) =~= pairs_view(self.entries@));
        EnvironmentMap { entries }
    }
}

impl EnvironmentMap {
    #[verifier::type_invariant]
    closed spec fn ascending(&self) -> bool {
        names_ascending(pairs_view(self.entries@))
    }

    /// An empty map.
    pub fn new() -> (m: EnvironmentMap)
        ensures
            m@ == Seq::<(Seq<char>, Seq<char>)>::empty(),
    {
        let m = EnvironmentMap { entries: Vec::new() };
        assert(pairs_view(m.entries@) =~= Seq::<(Seq<char>, Seq<char>)>::empty());
        m
    }

    /// The number of names.
    pub fn len(&self) -> (n: usize)
        ensures
            n == self@.len(),
    {
        self.entries.len()
    }

    /// Whether the map is empty.
    pub fn is_empty(&self) -> (b: bool)
        ensures
            b == (self@.len() == 0),
    {
        self.entries.len() == 0
    }

    /// The pairs, in ascending name order.
    pub fn pairs(&self) -> (r: &Vec<(String, String)>)
        ensures
            pairs_view(r@) == self@,
            names_ascending(self@),
    {
        proof {
            use_type_invariant(self);
        }
        &self.entries
    }

    /// Removes every pair.
    pub fn clear(&mut self)
        ensures
            final(self)@ == Seq::<(Seq<char>, Seq<char>)>::empty(),
    {
        self.entries = Vec::new();
        assert(pairs_view(self.entries@) =~= Seq::<(Seq<char>, Seq<char>)>::empty());
    }

    /// Sets `name` to `value`, returning the value it replaced. The map keeps
    /// ascending name order: a new name goes to its place, an existing name
    /// keeps its place and takes the new value.
    pub fn insert(&mut self, name: String, value: String) -> (old_value: Option<String>)
        ensures
            names_ascending(final(self)@),
            exists|i: int|
                0 <= i <= old(self)@.len() && {
                    ||| (old_value is None && final(self)@ == old(self)@.insert(i, (name@, value@)))
                    ||| (i < old(self)@.len() && old_value is Some && old_value->0@ == old(self)@[i].1
                        && old(self)@[i].0 == name@ && final(self)@ == old(self)@.update(i, (name@, value@)))
                },
            old_value is None <==> forall|k: int| 0 <= k < old(self)@.len() ==> old(self)@[k].0 != name@,
    {
        proof {
            use_type_invariant(&*self);
        }
        let ghost before = pairs_view(self.entries@);
        assert(before == old(self)@);
        let mut i: usize = 0;
        while i < self.entries.len() && compare_text(self.entries[i].0.as_str(), name.as_str()) < 0
            invariant
                i <= self.entries.len(),
                before == pairs_view(self.entries@),
                names_ascending(before),
                forall|k: int| 0 <= k < i ==> text_less(before[k].0, name@),
            decreases self.entries.len() - i,
        {
            i += 1;
        }
        assert(i == before.len() || !text_less(before[i as int].0, name@));
        if i < self.entries.len() && compare_text(self.entries[i].0.as_str(), name.as_str()) == 0 {
            let mut entries: Vec<(String, String)> = Vec::new();
            std::mem::swap(&mut entries, &mut self.entries);
            proof {
                assert(pairs_view(entries@) == before);
            }
            let (old_name, old_v) = entries.remove(i);
            entries.insert(i, (name, value));
            let ghost after = pairs_view(entries@);
            assert(after =~= before.update(i as int, (before[i as int].0, after[i as int].1)));
            assert(names_ascending(after));
            self.entries = entries;
            proof {
                assert(pairs_view(self.entries@) =~= before.update(i as int, (name@, value@)));
                assert(forall|k: int| 0 <= k < before.len() && k != i ==> before[k].0 != name@) by {
                    assert forall|k: int| 0 <= k < before.len() && k != i implies before[k].0 != name@ by {
                        if k < i {
                            assert(text_less(before[k].0, before[i as int].0));
                            text_less_irreflexive(before[k].0);
                        } else {
                            assert(text_less(before[i as int].0, before[k].0));
                            text_less_irreflexive(before[k].0);
                        }
                    }
                }
            }
            assert(0 <= i <= before.len() && i < before.len() && before[i as int].0 == name@
                && pairs_view(self.entries@) == before.update(i as int, (name@, value@)));
            let r = Some(old_v);
            assert(r->0@ == before[i as int].1);
            assert({
                ||| (r is None && pairs_view(self.entries@) == before.insert(i as int, (name@, value@)))
                ||| (i < before.len() && r is Some && r->0@ == before[i as int].1
                    && before[i as int].0 == name@ && pairs_view(self.entries@) == before.update(i as int, (name@, value@)))
            });
            r
        } else {
            let ghost here = i;
            proof {
                if i < before.len() {
                    assert(text_less(name@, before[i as int].0)) by {
                        text_less_total(name@, before[i as int].0);
                    }
                }
                assert forall|k: int| 0 <= k < before.len() implies before[k].0 != name@ by {
                    if k < i {
                        text_less_irreflexive(name@);
                    } else {
                        if k > i {
                            text_less_transitive(name@, before[i as int].0, before[k].0);
                        }
                        text_less_irreflexive(name@);
                    }
                }
            }
            let mut entries: Vec<(String, String)> = Vec::new();
            std::mem::swap(&mut entries, &mut self.entries);
            proof {
                assert(pairs_view(entries@) == before);
            }
            entries.insert(i, (name, value));
            let ghost after = pairs_view(entries@);
            assert(after =~= before.insert(i as int, (name@, value@)));
            assert(names_ascending(after)) by {
                assert forall|a: int, b: int| 0 <= a < b < after.len() implies text_less(
                    #[trigger] after[a].0,
                    #[trigger] after[b].0,
                ) by {
                    if b < i {
                    } else if b == i {
                        assert(after[a] == before[a]);
                    } else if a == i {
                        assert(after[b] == before[b - 1]);
                        if b - 1 > i {
                            text_less_transitive(name@, before[i as int].0, before[b - 1].0);
                        }
                    } else if a < i {
                        assert(after[b] == before[b - 1]);
                    } else {
                        assert(after[a] == before[a - 1]);
                        assert(after[b] == before[b - 1]);
                    }
                }
            }
            self.entries = entries;
            assert(pairs_view(self.entries@) == before.insert(i as int, (name@, value@)));
            let r: Option<String> = None;
            assert({
                ||| (r is None && pairs_view(self.entries@) == before.insert(i as int, (name@, value@)))
                ||| (i < before.len() && r is Some && r->0@ == before[i as int].1
                    && before[i as int].0 == name@ && pairs_view(self.entries@) == before.update(i as int, (name@, value@)))
            });
            r
        }
    }
}

} // verus!
