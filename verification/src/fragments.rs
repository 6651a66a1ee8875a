//! The fragment store: a mapping from fragment names to values.

use vstd::prelude::*;

verus! {

/// What a store holds: each name with its one value.
pub type FragmentMap = Map<Seq<char>, Seq<char>>;

/// The name/value pairs of `pairs` as plain text.
pub open spec fn pair_views(pairs: Seq<(String, String)>) -> Seq<(Seq<char>, Seq<char>)> {
    pairs.map_values(|p: (String, String)| (p.0@, p.1@))
}

/// `base` after each pair of `pairs` was written to it in order. A pair
/// overwrites whatever the name held before, so of two pairs with one name
/// the later wins.
pub open spec fn overlay(base: FragmentMap, pairs: Seq<(Seq<char>, Seq<char>)>) -> FragmentMap
    decreases pairs.len(),
{
    if pairs.len() == 0 {
        base
    } else {
        overlay(base, pairs.drop_last()).insert(pairs.last().0, pairs.last().1)
    }
}

/// The mapping that a list of pairs denotes.
pub open spec fn pairs_map(pairs: Seq<(Seq<char>, Seq<char>)>) -> FragmentMap {
    overlay(Map::empty(), pairs)
}

/// No name occurs twice in `pairs`.
pub open spec fn distinct_names(pairs: Seq<(Seq<char>, Seq<char>)>) -> bool {
    forall|i: int, j: int| 0 <= i < j < pairs.len() ==> pairs[i].0 != pairs[j].0
}

/// Where `name` stands in `pairs`, if anywhere: the first place, should
/// there be several.
pub open spec fn index_of(pairs: Seq<(Seq<char>, Seq<char>)>, name: Seq<char>) -> Option<int>
    decreases pairs.len(),
{
    if pairs.len() == 0 {
        None
    } else {
        match index_of(pairs.drop_last(), name) {
            Some(i) => Some(i),
            None => if pairs.last().0 == name {
                Some(pairs.len() - 1)
            } else {
                None
            },
        }
    }
}

/// `pairs` after `value` was written under `name`: in the place of `name`
/// where it has one, and behind all others where it has none.
pub open spec fn put(pairs: Seq<(Seq<char>, Seq<char>)>, name: Seq<char>, value: Seq<char>) -> Seq<
    (Seq<char>, Seq<char>),
> {
    match index_of(pairs, name) {
        Some(i) => pairs.update(i, (name, value)),
        None => pairs.push((name, value)),
    }
}

/// `pairs` after each pair of `written` was written to it in order.
pub open spec fn put_all(
    pairs: Seq<(Seq<char>, Seq<char>)>,
    written: Seq<(Seq<char>, Seq<char>)>,
) -> Seq<(Seq<char>, Seq<char>)>
    decreases written.len(),
{
    if written.len() == 0 {
        pairs
    } else {
        put(put_all(pairs, written.drop_last()), written.last().0, written.last().1)
    }
}

/// One line for each pair: the name, a colon and a blank, the value, and a
/// line feed.
pub open spec fn lines(pairs: Seq<(Seq<char>, Seq<char>)>) -> Seq<char>
    decreases pairs.len(),
{
    if pairs.len() == 0 {
        Seq::empty()
    } else {
        lines(pairs.drop_last()) + pairs.last().0 + seq![':', ' '] + pairs.last().1 + seq!['\n']
    }
}

/// Writing pairs over `base` is the union of `base` with the pairs' own
/// mapping, in which the pairs win.
pub proof fn lemma_overlay_is_union(base: FragmentMap, pairs: Seq<(Seq<char>, Seq<char>)>)
    ensures
        overlay(base, pairs) == base.union_prefer_right(pairs_map(pairs)),
    decreases pairs.len(),
{
    if pairs.len() == 0 {
        assert(overlay(base, pairs) =~= base.union_prefer_right(pairs_map(pairs)));
    } else {
        lemma_overlay_is_union(base, pairs.drop_last());
        assert(overlay(base, pairs) =~= base.union_prefer_right(pairs_map(pairs)));
    }
}

proof fn lemma_lookup_present(pairs: Seq<(Seq<char>, Seq<char>)>, i: int)
    requires
        distinct_names(pairs),
        0 <= i < pairs.len(),
    ensures
        pairs_map(pairs).contains_key(pairs[i].0),
        pairs_map(pairs)[pairs[i].0] == pairs[i].1,
    decreases pairs.len(),
{
    if i < pairs.len() - 1 {
        lemma_lookup_present(pairs.drop_last(), i);
    }
}

proof fn lemma_lookup_absent(pairs: Seq<(Seq<char>, Seq<char>)>, name: Seq<char>)
    requires
        forall|j: int| 0 <= j < pairs.len() ==> pairs[j].0 != name,
    ensures
        !pairs_map(pairs).contains_key(name),
    decreases pairs.len(),
{
    if pairs.len() > 0 {
        lemma_lookup_absent(pairs.drop_last(), name);
    }
}

proof fn lemma_overwrite(pairs: Seq<(Seq<char>, Seq<char>)>, i: int, value: Seq<char>)
    requires
        distinct_names(pairs),
        0 <= i < pairs.len(),
    ensures
        distinct_names(pairs.update(i, (pairs[i].0, value))),
        pairs_map(pairs.update(i, (pairs[i].0, value))) == pairs_map(pairs).insert(
            pairs[i].0,
            value,
        ),
    decreases pairs.len(),
{
    let written = pairs.update(i, (pairs[i].0, value));
    if i < pairs.len() - 1 {
        lemma_overwrite(pairs.drop_last(), i, value);
        assert(written.drop_last() =~= pairs.drop_last().update(i, (pairs[i].0, value)));
        assert(pairs_map(written) =~= pairs_map(pairs).insert(pairs[i].0, value));
    } else {
        assert(written.drop_last() =~= pairs.drop_last());
        assert(pairs_map(written) =~= pairs_map(pairs).insert(pairs[i].0, value));
    }
}

proof fn lemma_index_of_first(pairs: Seq<(Seq<char>, Seq<char>)>, name: Seq<char>, i: int)
    requires
        0 <= i < pairs.len(),
        pairs[i].0 == name,
        forall|j: int| 0 <= j < i ==> pairs[j].0 != name,
    ensures
        index_of(pairs, name) == Some(i),
    decreases pairs.len(),
{
    if i < pairs.len() - 1 {
        lemma_index_of_first(pairs.drop_last(), name, i);
    } else {
        lemma_index_of_none(pairs.drop_last(), name);
    }
}

proof fn lemma_index_of_none(pairs: Seq<(Seq<char>, Seq<char>)>, name: Seq<char>)
    requires
        forall|j: int| 0 <= j < pairs.len() ==> pairs[j].0 != name,
    ensures
        index_of(pairs, name) is None,
    decreases pairs.len(),
{
    if pairs.len() > 0 {
        lemma_index_of_none(pairs.drop_last(), name);
    }
}

/// Where `name` stands in `entries`, if anywhere.
fn position(entries: &Vec<(String, String)>, name: &String) -> (found: Option<usize>)
    ensures
        match found {
            Some(i) => i < entries.len() && index_of(pair_views(entries@), name@) == Some(
                i as int,
            ) && pair_views(entries@)[i as int].0 == name@,
            None => index_of(pair_views(entries@), name@) is None && forall|j: int|
                0 <= j < entries.len() ==> pair_views(entries@)[j].0 != name@,
        },
{
    let n = entries.len();
    let mut i: usize = 0;
    while i < n
        invariant
            n == entries.len(),
            i <= n,
            forall|j: int| 0 <= j < i ==> pair_views(entries@)[j].0 != name@,
        decreases n - i,
    {
        if entries[i].0 == *name {
            proof {
                lemma_index_of_first(pair_views(entries@), name@, i as int);
            }
            return Some(i);
        }
        i += 1;
    }
    proof {
        lemma_index_of_none(pair_views(entries@), name@);
    }
    None
}

/// A store of fragments. Each name has one value; writing a name again
/// replaces its value.
#[derive(Debug)]
pub struct Fragments {
    entries: Vec<(String, String)>,
}

impl View for Fragments {
    type V = FragmentMap;

    closed spec fn view(&self) -> FragmentMap {
        pairs_map(self.pairs())
    }
}

impl Fragments {
    /// The fragments in the order in which the store holds them: each name
    /// stands where it was first written.
    pub closed spec fn pairs(&self) -> Seq<(Seq<char>, Seq<char>)> {
        pair_views(self.entries@)
    }

    #[verifier::type_invariant]
    spec fn names_are_unique(&self) -> bool {
        distinct_names(pair_views(self.entries@))
    }

    /// A store without fragments.
    pub fn new() -> (store: Fragments)
        ensures
            store@ == FragmentMap::empty(),
            store.pairs() == Seq::<(Seq<char>, Seq<char>)>::empty(),
    {
        Fragments { entries: Vec::new() }
    }

    /// The fragments as a list that holds each name once.
    pub fn entries(&self) -> (entries: &Vec<(String, String)>)
        ensures
            pair_views(entries@) == self.pairs(),
            distinct_names(self.pairs()),
            pairs_map(self.pairs()) == self@,
    {
        proof {
            use_type_invariant(self);
        }
        &self.entries
    }

    /// The value of `name`, if the store has one.
    pub fn get(&self, name: &str) -> (found: Option<&String>)
        ensures
            match found {
                Some(value) => self@.contains_key(name@) && value@ == self@[name@],
                None => !self@.contains_key(name@),
            },
    {
        proof {
            use_type_invariant(self);
        }
        let wanted = String::from_str(name);
        match position(&self.entries, &wanted) {
            Some(i) => {
                proof {
                    lemma_lookup_present(pair_views(self.entries@), i as int);
                }
                Some(&self.entries[i].1)
            },
            None => {
                proof {
                    lemma_lookup_absent(pair_views(self.entries@), name@);
                }
                None
            },
        }
    }

    /// Whether the store has a value for `name`.
    pub fn contains(&self, name: &str) -> (present: bool)
        ensures
            present == self@.contains_key(name@),
    {
        self.get(name).is_some()
    }

    /// The fragments as text: one line `name: value` for each.
    pub fn listing(&self) -> (text: String)
        ensures
            text@ == lines(self.pairs()),
    {
        proof {
            reveal_strlit(": ");
            reveal_strlit("\n");
        }
        let n = self.entries.len();
        let mut text = String::new();
        let mut i: usize = 0;
        while i < n
            invariant
                n == self.entries.len(),
                i <= n,
                ": "@ == seq![':', ' '],
                "\n"@ == seq!['\n'],
                text@ == lines(self.pairs().take(i as int)),
            decreases n - i,
        {
            proof {
                let upto = self.pairs().take(i as int + 1);
                assert(upto.drop_last() =~= self.pairs().take(i as int));
                assert(upto.last() == (self.entries[i as int].0@, self.entries[i as int].1@));
            }
            text.append(self.entries[i].0.as_str());
            text.append(": ");
            text.append(self.entries[i].1.as_str());
            text.append("\n");
            i += 1;
        }
        assert(self.pairs().take(n as int) =~= self.pairs());
        text
    }

    /// Writes `value` under `name`, replacing what the name held.
    pub fn insert(&mut self, name: String, value: String)
        ensures
            final(self)@ == old(self)@.insert(name@, value@),
            final(self).pairs() == put(old(self).pairs(), name@, value@),
    {
        proof {
            use_type_invariant(&*self);
        }
        let mut entries: Vec<(String, String)> = Vec::new();
        core::mem::swap(&mut self.entries, &mut entries);
        let ghost before = pair_views(entries@);
        match position(&entries, &name) {
            Some(i) => {
                proof {
                    lemma_overwrite(before, i as int, value@);
                    assert(pair_views(entries@.update(i as int, (name, value))) =~= before.update(
                        i as int,
                        (before[i as int].0, value@),
                    ));
                }
                entries.set(i, (name, value));
            },
            None => {
                proof {
                    let after = pair_views(entries@.push((name, value)));
                    assert(after =~= before.push((name@, value@)));
                    assert(after.drop_last() =~= before);
                }
                entries.push((name, value));
            },
        }
        self.entries = entries;
    }

    /// Writes every pair of `pairs`, in order. Fragments that `pairs` does
    /// not name stay as they are; none is removed.
    pub fn merge(&mut self, pairs: &Vec<(String, String)>)
        ensures
            final(self)@ == old(self)@.union_prefer_right(pairs_map(pair_views(pairs@))),
            final(self).pairs() == put_all(old(self).pairs(), pair_views(pairs@)),
    {
        let n = pairs.len();
        let mut i: usize = 0;
        while i < n
            invariant
                n == pairs.len(),
                i <= n,
                self@ == overlay(old(self)@, pair_views(pairs@).take(i as int)),
                self.pairs() == put_all(old(self).pairs(), pair_views(pairs@).take(i as int)),
            decreases n - i,
        {
            let name = pairs[i].0.clone();
            let value = pairs[i].1.clone();
            proof {
                let done = pair_views(pairs@).take(i as int);
                let next = pair_views(pairs@).take(i as int + 1);
                assert(next.drop_last() =~= done);
                assert(next.last() == (name@, value@));
            }
            self.insert(name, value);
            i += 1;
        }
        proof {
            assert(pair_views(pairs@).take(n as int) =~= pair_views(pairs@));
            lemma_overlay_is_union(old(self)@, pair_views(pairs@));
        }
    }
}

} // verus!
