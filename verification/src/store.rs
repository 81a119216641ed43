//! The session store: an addressable key/value and key/set store with
//! atomic set-insertion, used for nonce bookkeeping and voice-channel
//! membership.
//!
//! The concrete store technology is outside this library; this is the
//! in-memory store the engine works against. The count returned by
//! [`SessionStore::add_to_set`] is the sole authority for conflict
//! detection: an element is newly added exactly when the count is one.

use vstd::prelude::*;
use crate::infoops::lookup;
use crate::text::str_eq;

verus! {

/// The mathematical value of a [`SessionStore`]: its key/value bindings
/// and its key/set bindings, latest binding first.
pub struct StoreV {
    /// String values by key; the first binding of a key is current.
    pub kv: Seq<(Seq<char>, Seq<char>)>,
    /// String sets by key; the first binding of a key is current.
    pub sets: Seq<(Seq<char>, Seq<Seq<char>>)>,
}

/// The value currently bound to a key, if any.
pub open spec fn stored_value(st: StoreV, k: Seq<char>) -> Option<Seq<char>> {
    lookup(st.kv, k)
}

/// The members of the set currently bound to a key; empty when unbound.
pub open spec fn set_members(st: StoreV, k: Seq<char>) -> Seq<Seq<char>> {
    match lookup(st.sets, k) {
        Some(es) => es,
        None => Seq::empty(),
    }
}

/// Whether an element is in the set currently bound to a key.
pub open spec fn set_contains(st: StoreV, k: Seq<char>, x: Seq<char>) -> bool {
    set_members(st, k).contains(x)
}

/// An addressable key/value and key/set store.
pub struct SessionStore {
    kv: Vec<(String, String)>,
    sets: Vec<(String, Vec<String>)>,
}

impl View for SessionStore {
    type V = StoreV;

    closed spec fn view(&self) -> StoreV {
        StoreV {
            kv: self.kv@.map_values(|p: (String, String)| (p.0@, p.1@)),
            sets: self.sets@.map_values(|p: (String, Vec<String>)| (p.0@, p.1.deep_view())),
        }
    }
}

impl SessionStore {
    /// An empty store.
    pub fn new() -> (s: SessionStore)
        ensures
            s@.kv == Seq::<(Seq<char>, Seq<char>)>::empty(),
            s@.sets == Seq::<(Seq<char>, Seq<Seq<char>>)>::empty(),
    {
        let s = SessionStore { kv: Vec::new(), sets: Vec::new() };
        proof {
            assert(s@.kv =~= Seq::<(Seq<char>, Seq<char>)>::empty());
            assert(s@.sets =~= Seq::<(Seq<char>, Seq<Seq<char>>)>::empty());
        }
        s
    }

    /// Unconditional upsert: binds the key to the value, leaving every
    /// other key and all sets unchanged.
    pub fn set(&mut self, key: &str, value: &str)
        ensures
            stored_value(final (self)@, key@) == Some(value@),
            forall|k: Seq<char>|
                k != key@ ==> stored_value(final (self)@, k) == stored_value(old(self)@, k),
            final (self)@.sets == old(self)@.sets,
    {
        self.kv.insert(0, (String::from_str(key), String::from_str(value)));
        proof {
            assert(final (self)@.kv =~= seq![(key@, value@)] + old(self)@.kv);
            assert(final (self)@.sets =~= old(self)@.sets);
            assert forall|k: Seq<char>| k != key@ implies stored_value(final (self)@, k)
                == stored_value(old(self)@, k) by {
                assert(final (self)@.kv.drop_first() =~= old(self)@.kv);
            }
        }
    }

    /// The value currently bound to a key, if any.
    pub fn get(&self, key: &str) -> (r: Option<String>)
        ensures
            match r {
                Some(v) => stored_value(self@, key@) == Some(v@),
                None => stored_value(self@, key@) is None,
            },
    {
        let ghost full = self@.kv;
        proof {
            assert(full.skip(0) =~= full);
        }
        let mut i: usize = 0;
        while i < self.kv.len()
            invariant
                i <= self.kv@.len(),
                full == self@.kv,
                lookup(full, key@) == lookup(full.skip(i as int), key@),
            decreases self.kv@.len() - i,
        {
            proof {
                assert(full.skip(i as int)[0] == (self.kv@[i as int].0@, self.kv@[i as int].1@));
            }
            if str_eq(self.kv[i].0.as_str(), key) {
                return Some(self.kv[i].1.clone());
            }
            proof {
                assert(full.skip(i as int).drop_first() =~= full.skip(i + 1));
            }
            i = i + 1;
        }
        proof {
            assert(full.skip(i as int).len() == 0);
        }
        None
    }

    /// The set currently bound to a key, as a fresh vector; empty when the
    /// key is unbound.
    fn get_set(&self, key: &str) -> (r: Vec<String>)
        ensures
            r.deep_view() == set_members(self@, key@),
    {
        let ghost full = self@.sets;
        proof {
            assert(full.skip(0) =~= full);
        }
        let mut i: usize = 0;
        while i < self.sets.len()
            invariant
                i <= self.sets@.len(),
                full == self@.sets,
                lookup(full, key@) == lookup(full.skip(i as int), key@),
            decreases self.sets@.len() - i,
        {
            proof {
                assert(full.skip(i as int)[0] == (
                    self.sets@[i as int].0@,
                    self.sets@[i as int].1.deep_view(),
                ));
            }
            if str_eq(self.sets[i].0.as_str(), key) {
                let src = &self.sets[i].1;
                let mut out: Vec<String> = Vec::new();
                let mut j: usize = 0;
                while j < src.len()
                    invariant
                        j <= src@.len(),
                        out.deep_view() =~= src.deep_view().subrange(0, j as int),
                    decreases src@.len() - j,
                {
                    let ghost before = out.deep_view();
                    out.push(src[j].clone());
                    proof {
                        assert(out.deep_view().len() == before.len() + 1);
                        assert(forall|m: int|
                            0 <= m < before.len() ==> out.deep_view()[m] == before[m]);
                        assert(out.deep_view()[before.len() as int] == src@[j as int]@);
                        assert(src.deep_view()[j as int] == src@[j as int]@);
                        assert(out.deep_view() =~= src.deep_view().subrange(0, j + 1 as int));
                    }
                    j = j + 1;
                }
                proof {
                    assert(src.deep_view().subrange(0, src@.len() as int) =~= src.deep_view());
                }
                return out;
            }
            proof {
                assert(full.skip(i as int).drop_first() =~= full.skip(i + 1));
            }
            i = i + 1;
        }
        proof {
            assert(full.skip(i as int).len() == 0);
        }
        let out: Vec<String> = Vec::new();
        proof {
            assert(out.deep_view() =~= Seq::<Seq<char>>::empty());
        }
        out
    }

    /// Empties the store: every binding and every set is removed. Used by
    /// the process bootstrap at startup, not by the connection engine.
    pub fn flush_all(&mut self)
        ensures
            final (self)@.kv == Seq::<(Seq<char>, Seq<char>)>::empty(),
            final (self)@.sets == Seq::<(Seq<char>, Seq<Seq<char>>)>::empty(),
    {
        self.kv = Vec::new();
        self.sets = Vec::new();
        proof {
            assert(final (self)@.kv =~= Seq::<(Seq<char>, Seq<char>)>::empty());
            assert(final (self)@.sets =~= Seq::<(Seq<char>, Seq<Seq<char>>)>::empty());
        }
    }

    /// Whether an element is in the set currently bound to a key.
    pub fn contains(&self, key: &str, element: &str) -> (r: bool)
        ensures
            r == set_contains(self@, key@, element@),
    {
        let members = self.get_set(key);
        let ghost ms = set_members(self@, key@);
        let mut i: usize = 0;
        while i < members.len()
            invariant
                i <= members@.len(),
                ms == set_members(self@, key@),
                members.deep_view() == ms,
                forall|j: int| 0 <= j < i ==> ms[j] != element@,
            decreases members@.len() - i,
        {
            if str_eq(members[i].as_str(), element) {
                proof {
                    assert(members.deep_view()[i as int] == members@[i as int]@);
                    assert(exists|m: int| 0 <= m < ms.len() && ms[m] == element@) by {
                        let w = i as int;
                        assert(0 <= w < ms.len() && ms[w] == element@);
                    }
                }
                return true;
            }
            i = i + 1;
        }
        proof {
            assert(!ms.contains(element@));
        }
        false
    }

    /// Atomic set insertion. Returns how many elements were newly added:
    /// one when the element was not yet in the key's set, zero when it
    /// already was. The returned count is the sole authority for conflict
    /// detection.
    pub fn add_to_set(&mut self, key: &str, element: &str) -> (added: usize)
        ensures
            set_contains(old(self)@, key@, element@) ==> added == 0 && final (self)@ == old(
                self,
            )@,
            !set_contains(old(self)@, key@, element@) ==> {
                &&& added == 1
                &&& forall|x: Seq<char>|
                    set_contains(final (self)@, key@, x) <==> (x == element@ || set_contains(
                        old(self)@,
                        key@,
                        x,
                    ))
                &&& forall|k: Seq<char>|
                    k != key@ ==> lookup(final (self)@.sets, k) == lookup(old(self)@.sets, k)
                &&& final (self)@.kv == old(self)@.kv
            },
    {
        let mut members = self.get_set(key);
        let ghost oldms = set_members(self@, key@);
        let mut i: usize = 0;
        while i < members.len()
            invariant
                i <= members@.len(),
                oldms == set_members(self@, key@),
                self == old(self),
                members.deep_view() == oldms,
                forall|j: int| 0 <= j < i ==> oldms[j] != element@,
            decreases members@.len() - i,
        {
            if str_eq(members[i].as_str(), element) {
                proof {
                    assert(members.deep_view()[i as int] == members@[i as int]@);
                    assert(oldms[i as int] == element@);
                    assert(exists|m: int| 0 <= m < oldms.len() && oldms[m] == element@) by {
                        let w = i as int;
                        assert(0 <= w < oldms.len() && oldms[w] == element@);
                    }
                    assert(set_contains(old(self)@, key@, element@));
                }
                return 0;
            }
            i = i + 1;
        }
        proof {
            assert forall|j: int| 0 <= j < oldms.len() implies oldms[j] != element@ by {}
            assert(!oldms.contains(element@));
        }
        members.push(String::from_str(element));
        let ghost newms = members.deep_view();
        proof {
            assert(newms =~= oldms.push(element@));
        }
        self.sets.insert(0, (String::from_str(key), members));
        proof {
            assert(final (self)@.sets =~= seq![(key@, newms)] + old(self)@.sets);
            assert(final (self)@.kv =~= old(self)@.kv);
            assert(set_members(final (self)@, key@) == newms);
            assert forall|x: Seq<char>|
                set_contains(final (self)@, key@, x) <==> (x == element@ || set_contains(
                    old(self)@,
                    key@,
                    x,
                )) by {
                if set_contains(final (self)@, key@, x) {
                    let j = choose|j: int| 0 <= j < newms.len() && newms[j] == x;
                    if j < oldms.len() {
                        assert(oldms[j] == x);
                        assert(oldms.contains(x));
                    } else {
                        assert(x == element@);
                    }
                }
                if x == element@ {
                    assert(newms[oldms.len() as int] == x);
                    assert(newms.contains(x));
                }
                if set_contains(old(self)@, key@, x) {
                    let j = choose|j: int| 0 <= j < oldms.len() && oldms[j] == x;
                    assert(newms[j] == x);
                    assert(newms.contains(x));
                }
            }
            assert forall|k: Seq<char>| k != key@ implies lookup(final (self)@.sets, k) == lookup(
                old(self)@.sets,
                k,
            ) by {
                assert(final (self)@.sets.drop_first() =~= old(self)@.sets);
            }
        }
        1
    }
}

} // verus!
