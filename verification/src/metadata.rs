//! The metadata of an entry: a finite map from key to value, kept as a list
//! of pairs in which no key occurs twice.
use vstd::prelude::*;

verus! {

/// The views of a list of key and value pairs.
pub open spec fn member_views(pairs: Seq<(String, String)>) -> Seq<(Seq<char>, Seq<char>)> {
    Seq::new(pairs.len(), |i: int| (pairs[i].0@, pairs[i].1@))
}

/// The map that a list of members stands for: each member is inserted in
/// turn, so of two members with one key the later one stays.
pub open spec fn map_of(members: Seq<(Seq<char>, Seq<char>)>) -> Map<Seq<char>, Seq<char>>
    decreases members.len(),
{
    if members.len() == 0 {
        Map::empty()
    } else {
        map_of(members.drop_last()).insert(members.last().0, members.last().1)
    }
}

/// No key occurs twice among the members.
pub open spec fn distinct_keys(members: Seq<(Seq<char>, Seq<char>)>) -> bool {
    forall|i: int, j: int| 0 <= i < j < members.len() ==> members[i].0 != members[j].0
}

/// The keys of `map_of` are the keys of the members.
pub proof fn lemma_map_of_keys(members: Seq<(Seq<char>, Seq<char>)>, key: Seq<char>)
    ensures
        map_of(members).dom().contains(key) <==> exists|i: int|
            0 <= i < members.len() && #[trigger] members[i].0 == key,
    decreases members.len(),
{
    if members.len() > 0 {
        let front = members.drop_last();
        lemma_map_of_keys(front, key);
        if map_of(members).dom().contains(key) {
            if members.last().0 == key {
                assert(members[members.len() - 1].0 == key);
            } else {
                let i = choose|i: int| 0 <= i < front.len() && #[trigger] front[i].0 == key;
                assert(members[i].0 == key);
            }
        }
        if exists|i: int| 0 <= i < members.len() && #[trigger] members[i].0 == key {
            let i = choose|i: int| 0 <= i < members.len() && #[trigger] members[i].0 == key;
            if i < members.len() - 1 {
                assert(front[i].0 == key);
            }
        }
    }
}

/// Among members with distinct keys, each member's value is the map's value
/// at its key.
pub proof fn lemma_map_of_value(members: Seq<(Seq<char>, Seq<char>)>, at: int)
    requires
        distinct_keys(members),
        0 <= at < members.len(),
    ensures
        map_of(members).dom().contains(members[at].0),
        map_of(members)[members[at].0] == members[at].1,
    decreases members.len(),
{
    let front = members.drop_last();
    if at < members.len() - 1 {
        assert(distinct_keys(front));
        lemma_map_of_value(front, at);
        assert(front[at] == members[at]);
        assert(members[at].0 != members[members.len() - 1].0);
    }
}

/// Replacing the value of a member keeps the keys distinct and amounts to an
/// insertion at that member's key.
pub proof fn lemma_map_of_update(
    members: Seq<(Seq<char>, Seq<char>)>,
    at: int,
    value: Seq<char>,
)
    requires
        distinct_keys(members),
        0 <= at < members.len(),
    ensures
        distinct_keys(members.update(at, (members[at].0, value))),
        map_of(members.update(at, (members[at].0, value))) == map_of(members).insert(
            members[at].0,
            value,
        ),
    decreases members.len(),
{
    let key = members[at].0;
    let changed = members.update(at, (key, value));
    let front = members.drop_last();
    assert(distinct_keys(changed)) by {
        assert forall|i: int, j: int| 0 <= i < j < changed.len() implies changed[i].0
            != changed[j].0 by {
            assert(changed[i].0 == members[i].0);
            assert(changed[j].0 == members[j].0);
        }
    }
    if at == members.len() - 1 {
        assert(changed.drop_last() == front);
        assert(map_of(front).insert(key, members[at].1).insert(key, value) == map_of(
            front,
        ).insert(key, value));
    } else {
        assert(distinct_keys(front));
        lemma_map_of_update(front, at, value);
        assert(front[at] == members[at]);
        assert(changed.drop_last() == front.update(at, (key, value)));
        let last = members.last();
        assert(changed.last() == last);
        assert(last.0 != key);
        assert(map_of(front).insert(key, value).insert(last.0, last.1) == map_of(front).insert(
            last.0,
            last.1,
        ).insert(key, value));
    }
}

/// A finite map from key to value.
pub struct Metadata {
    pairs: Vec<(String, String)>,
}

impl View for Metadata {
    type V = Map<Seq<char>, Seq<char>>;

    closed spec fn view(&self) -> Map<Seq<char>, Seq<char>> {
        map_of(member_views(self.pairs@))
    }
}

impl Metadata {
    #[verifier::type_invariant]
    spec fn keys_are_distinct(&self) -> bool {
        distinct_keys(member_views(self.pairs@))
    }

    /// The members in the order in which their keys first came in. They hold
    /// no key twice and stand for the map, as `len` states.
    pub closed spec fn members(&self) -> Seq<(Seq<char>, Seq<char>)> {
        member_views(self.pairs@)
    }

    /// The map without any key.
    pub fn new() -> (out: Metadata)
        ensures
            out@ == Map::<Seq<char>, Seq<char>>::empty(),
            out.members().len() == 0,
    {
        Metadata { pairs: Vec::new() }
    }

    /// The position of `key` among the members, if it is there.
    fn position(&self, key: &str) -> (found: Option<usize>)
        ensures
            found is Some <==> self@.dom().contains(key@),
            found matches Some(at) ==> at < self.pairs.len() && self.pairs@[at as int].0@ == key@,
    {
        let mut i: usize = 0;
        while i < self.pairs.len()
            invariant
                i <= self.pairs.len(),
                forall|k: int| 0 <= k < i ==> self.pairs@[k].0@ != key@,
            decreases self.pairs.len() - i,
        {
            if crate::text::same_text(self.pairs[i].0.as_str(), key) {
                proof {
                    lemma_map_of_keys(member_views(self.pairs@), key@);
                    assert(member_views(self.pairs@)[i as int].0 == key@);
                }
                return Some(i);
            }
            i += 1;
        }
        proof {
            lemma_map_of_keys(member_views(self.pairs@), key@);
            if self@.dom().contains(key@) {
                let k = choose|k: int|
                    0 <= k < self.pairs.len() && #[trigger] member_views(self.pairs@)[k].0 == key@;
                assert(self.pairs@[k].0@ == key@);
            }
        }
        None
    }

    /// Sets the value of `key`, whether or not the key was there before.
    pub fn insert(&mut self, key: String, value: String)
        ensures
            final(self)@ == old(self)@.insert(key@, value@),
    {
        proof {
            use_type_invariant(&*self);
        }
        let found = self.position(key.as_str());
        let mut taken = Metadata { pairs: Vec::new() };
        core::mem::swap(self, &mut taken);
        let mut pairs = taken.pairs;
        let ghost before = member_views(pairs@);
        match found {
            Some(at) => {
                proof {
                    lemma_map_of_update(before, at as int, value@);
                }
                pairs.set(at, (key, value));
                assert(member_views(pairs@) == before.update(
                    at as int,
                    (before[at as int].0, value@),
                ));
            },
            None => {
                proof {
                    lemma_map_of_keys(before, key@);
                }
                pairs.push((key, value));
                proof {
                    let after = member_views(pairs@);
                    assert(after == before.push((key@, value@)));
                    assert(after.drop_last() == before);
                    assert forall|i: int, j: int| 0 <= i < j < after.len() implies after[i].0
                        != after[j].0 by {
                        if j == after.len() - 1 {
                            assert(before[i].0 != key@);
                        } else {
                            assert(before[i].0 != before[j].0);
                        }
                    }
                }
            },
        }
        *self = Metadata { pairs };
    }

    /// The value of `key`, if the map has one.
    pub fn get(&self, key: &str) -> (found: Option<String>)
        ensures
            found is Some <==> self@.dom().contains(key@),
            found matches Some(value) ==> self@[key@] == value@,
    {
        proof {
            use_type_invariant(self);
        }
        match self.position(key) {
            Some(at) => {
                proof {
                    lemma_map_of_value(member_views(self.pairs@), at as int);
                }
                Some(self.pairs[at].1.clone())
            },
            None => None,
        }
    }

    /// The number of keys.
    pub fn len(&self) -> (n: usize)
        ensures
            n == self.members().len(),
            distinct_keys(self.members()),
            self@ == map_of(self.members()),
    {
        proof {
            use_type_invariant(self);
        }
        self.pairs.len()
    }

    /// The key and the value of the member at `index`.
    pub fn member(&self, index: usize) -> (pair: (String, String))
        requires
            index < self.members().len(),
        ensures
            (pair.0@, pair.1@) == self.members()[index as int],
    {
        (self.pairs[index].0.clone(), self.pairs[index].1.clone())
    }

    /// A copy of the map.
    pub fn duplicate(&self) -> (out: Metadata)
        ensures
            out@ == self@,
            out.members() == self.members(),
    {
        proof {
            use_type_invariant(self);
        }
        let mut pairs: Vec<(String, String)> = Vec::new();
        let mut i: usize = 0;
        while i < self.pairs.len()
            invariant
                i <= self.pairs.len(),
                member_views(pairs@) == member_views(self.pairs@).take(i as int),
            decreases self.pairs.len() - i,
        {
            let key = self.pairs[i].0.clone();
            let value = self.pairs[i].1.clone();
            let ghost before = member_views(pairs@);
            pairs.push((key, value));
            assert(member_views(pairs@) == before.push((key@, value@)));
            assert(member_views(self.pairs@).take(i + 1) == member_views(self.pairs@).take(
                i as int,
            ).push(member_views(self.pairs@)[i as int]));
            i += 1;
        }
        assert(member_views(self.pairs@).take(self.pairs.len() as int) == member_views(
            self.pairs@,
        ));
        Metadata { pairs }
    }
}

} // verus!
