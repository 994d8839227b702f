//! A name-to-location mapping kept as the ordered sequence of recorded pairs.
//! A later pair with the same name overwrites an earlier one, which is the
//! shadowing rule of the whole index: the entry recorded last wins.

use vstd::prelude::*;

verus! {

/// The mapping that a sequence of recorded pairs denotes: each pair is an
/// insertion, performed in order, so the last pair with a given name decides
/// that name's value.
pub open spec fn map_of(pairs: Seq<(Seq<char>, Seq<char>)>) -> Map<Seq<char>, Seq<char>>
    decreases pairs.len(),
{
    if pairs.len() == 0 {
        Map::empty()
    } else {
        map_of(pairs.drop_last()).insert(pairs.last().0, pairs.last().1)
    }
}

/// A name is in the mapping exactly when some recorded pair carries it.
pub proof fn lemma_map_of_contains(pairs: Seq<(Seq<char>, Seq<char>)>, k: Seq<char>)
    ensures
        map_of(pairs).contains_key(k) <==> exists|i: int|
            0 <= i < pairs.len() && (#[trigger] pairs[i]).0 == k,
    decreases pairs.len(),
{
    if pairs.len() > 0 {
        lemma_map_of_contains(pairs.drop_last(), k);
        if pairs.last().0 == k {
            assert(pairs[pairs.len() - 1].0 == k);
        } else if map_of(pairs).contains_key(k) {
            let i = choose|i: int| 0 <= i < pairs.drop_last().len() && (#[trigger] pairs.drop_last()[i]).0 == k;
            assert(pairs[i].0 == k);
        } else {
            assert forall|i: int| 0 <= i < pairs.len() implies (#[trigger] pairs[i]).0 != k by {
                if i < pairs.len() - 1 {
                    assert(pairs.drop_last()[i] == pairs[i]);
                }
            }
        }
    }
}

/// The pair that no later pair shadows decides the stored value.
pub proof fn lemma_map_of_last_match(pairs: Seq<(Seq<char>, Seq<char>)>, i: int, k: Seq<char>)
    requires
        0 <= i < pairs.len(),
        pairs[i].0 == k,
        forall|j: int| i < j < pairs.len() ==> (#[trigger] pairs[j]).0 != k,
    ensures
        map_of(pairs).contains_key(k),
        map_of(pairs)[k] == pairs[i].1,
    decreases pairs.len(),
{
    if i == pairs.len() - 1 {
    } else {
        assert(pairs.drop_last()[i] == pairs[i]);
        assert forall|j: int| i < j < pairs.drop_last().len() implies (#[trigger] pairs.drop_last()[j]).0 != k by {
            assert(pairs.drop_last()[j] == pairs[j]);
        }
        lemma_map_of_last_match(pairs.drop_last(), i, k);
        assert(pairs.last().0 != k);
    }
}

/// A name that no recorded pair carries is absent.
pub proof fn lemma_map_of_absent(pairs: Seq<(Seq<char>, Seq<char>)>, k: Seq<char>)
    requires
        forall|j: int| 0 <= j < pairs.len() ==> (#[trigger] pairs[j]).0 != k,
    ensures
        !map_of(pairs).contains_key(k),
{
    lemma_map_of_contains(pairs, k);
}

/// Recording one run of pairs after another merges the two mappings, the
/// later run winning on the names both carry.
pub proof fn lemma_map_of_concat(a: Seq<(Seq<char>, Seq<char>)>, b: Seq<(Seq<char>, Seq<char>)>)
    ensures
        map_of(a + b) == map_of(a).union_prefer_right(map_of(b)),
    decreases b.len(),
{
    if b.len() == 0 {
        assert(a + b =~= a);
        assert(map_of(a).union_prefer_right(map_of(b)) =~= map_of(a));
    } else {
        lemma_map_of_concat(a, b.drop_last());
        assert((a + b).drop_last() =~= a + b.drop_last());
        assert((a + b).last() == b.last());
        assert(map_of(a).union_prefer_right(map_of(b.drop_last())).insert(b.last().0, b.last().1)
            =~= map_of(a).union_prefer_right(map_of(b)));
    }
}

/// A mapping from executable names to filesystem locations, held as the
/// ordered sequence of pairs that produced it.
#[derive(Debug)]
pub struct StrMap {
    pairs: Vec<(String, String)>,
}

impl View for StrMap {
    type V = Map<Seq<char>, Seq<char>>;

    closed spec fn view(&self) -> Map<Seq<char>, Seq<char>> {
        map_of(self.pairs.deep_view())
    }
}

impl StrMap {
    /// The empty mapping.
    pub fn new() -> (r: Self)
        ensures
            r@ == Map::<Seq<char>, Seq<char>>::empty(),
    {
        let r = StrMap { pairs: Vec::new() };
        proof {
            assert(r.pairs.deep_view() =~= Seq::<(Seq<char>, Seq<char>)>::empty());
        }
        r
    }

    /// The mapping that the given pairs denote, in order, later pairs
    /// overwriting earlier ones.
    pub fn from_pairs(pairs: Vec<(String, String)>) -> (r: Self)
        ensures
            r@ == map_of(pairs.deep_view()),
    {
        StrMap { pairs }
    }

    /// Records one name at one location, overwriting what the name held.
    pub fn insert(&mut self, name: String, location: String)
        ensures
            final(self)@ == old(self)@.insert(name@, location@),
    {
        let ghost before = self.pairs.deep_view();
        let ghost entry = (name@, location@);
        self.pairs.push((name, location));
        proof {
            assert(self.pairs.deep_view() =~= before.push(entry));
            assert(before.push(entry).drop_last() =~= before);
        }
    }

    /// Looks a name up; pure read, no side effects. Returns the location the
    /// last recording of that name gave, or nothing if the name was never
    /// recorded.
    pub fn get(&self, name: &str) -> (r: Option<String>)
        ensures
            match r {
                Some(loc) => self@.contains_key(name@) && loc@ == self@[name@],
                None => !self@.contains_key(name@),
            },
    {
        let key: String = name.to_owned();
        let mut i: usize = self.pairs.len();
        while i > 0
            invariant
                i <= self.pairs.len(),
                key@ == name@,
                forall|j: int|
                    i <= j < self.pairs.deep_view().len() ==> (#[trigger] self.pairs.deep_view()[j]).0 != name@,
            decreases i,
        {
            i = i - 1;
            if self.pairs[i].0 == key {
                let loc = self.pairs[i].1.clone();
                proof {
                    assert(self.pairs.deep_view()[i as int].0 == name@);
                    lemma_map_of_last_match(self.pairs.deep_view(), i as int, name@);
                }
                return Some(loc);
            }
            proof {
                assert(self.pairs.deep_view()[i as int].0 != name@);
            }
        }
        proof {
            lemma_map_of_absent(self.pairs.deep_view(), name@);
        }
        None
    }

    /// The recorded pairs, in recording order; they denote exactly this
    /// mapping.
    pub fn entries(&self) -> (r: &Vec<(String, String)>)
        ensures
            map_of(r.deep_view()) == self@,
    {
        &self.pairs
    }
}

/// Folds every pair of `more` into `map`, in recording order: on the names
/// both hold, `more` wins.
pub fn merge_maps(map: &mut StrMap, more: StrMap)
    ensures
        final(map)@ == old(map)@.union_prefer_right(more@),
{
    let ghost a = map.pairs.deep_view();
    let ghost b = more.pairs.deep_view();
    let mut more = more;
    map.pairs.append(&mut more.pairs);
    proof {
        assert(map.pairs.deep_view() =~= a + b);
        lemma_map_of_concat(a, b);
    }
}

} // verus!
