//! The multitype registry: a store mapping the order-normalized set
//! of a union's constituent type names to the one synthesized
//! variant-type name.  It is built (write-once per key) during type
//! generation and read — never extended — during method generation.
//!
//! The registry lives for one generation run and is passed explicitly
//! into both phases: exclusively borrowed while type generation may
//! register keys, then shared read-only, so the two-phase discipline
//! is enforced by ownership rather than by a lock.

use vstd::prelude::*;

use crate::naming::{synthesize_union_name, union_key, union_name};
use crate::text::{names_eq, names_view, sort_names};

verus! {

struct RegEntry {
    /// The normalized (sorted) constituent names.
    key: Vec<String>,
    /// The synthesized variant-type name stored for the key.
    name: String,
}

/// Registry of synthesized union types, keyed by the normalized
/// constituent-name set.
pub struct MultitypeRegistry {
    entries: Vec<RegEntry>,
}

impl MultitypeRegistry {
    /// The set of registered (normalized) keys.
    pub closed spec fn keys(self) -> Set<Seq<Seq<char>>> {
        self.entries@.map_values(|e: RegEntry| names_view(e.key@)).to_set()
    }

    /// Every stored name is the synthesized name of its key, so a
    /// key, once registered, can never be reassigned another name.
    pub closed spec fn wf(self) -> bool {
        forall|i: int|
            0 <= i < self.entries@.len() ==> (#[trigger] self.entries@[i].name)@ == union_name(
                names_view(self.entries@[i].key@),
            )
    }

    /// An empty registry, the state at the start of a generation run.
    pub fn new() -> (r: MultitypeRegistry)
        ensures
            r.wf(),
            r.keys() == Set::<Seq<Seq<char>>>::empty(),
    {
        let r = MultitypeRegistry { entries: Vec::new() };
        proof {
            assert(r.entries@.map_values(|e: RegEntry| names_view(e.key@)) =~= Seq::<
                Seq<Seq<char>>,
            >::empty());
            assert(r.keys() =~= Set::<Seq<Seq<char>>>::empty());
        }
        r
    }

    /// Returns the synthesized name for the union over `names`,
    /// registering the key first if it is new; idempotent per key.
    /// The second component reports whether the key was new.
    pub fn get_or_create(&mut self, names: &Vec<String>) -> (r: (String, bool))
        requires
            old(self).wf(),
        ensures
            final(self).wf(),
            r.0@ == union_name(union_key(names_view(names@))),
            r.1 == !old(self).keys().contains(union_key(names_view(names@))),
            final(self).keys() == old(self).keys().insert(union_key(names_view(names@))),
    {
        let ghost k = union_key(names_view(names@));
        let sorted = sort_names(names);
        let mut i: usize = 0;
        while i < self.entries.len()
            invariant
                self.wf(),
                self == old(self),
                k == union_key(names_view(names@)),
                names_view(sorted@) == k,
                0 <= i <= self.entries@.len(),
                forall|j: int|
                    0 <= j < i ==> names_view(#[trigger] self.entries@[j].key@) != k,
            decreases self.entries@.len() - i,
        {
            if names_eq(&self.entries[i].key, &sorted) {
                let found = self.entries[i].name.clone();
                proof {
                    assert(self.entries@[i as int].name@ == union_name(
                        names_view(self.entries@[i as int].key@),
                    ));
                    let m = self.entries@.map_values(|e: RegEntry| names_view(e.key@));
                    assert(m[i as int] == k);
                    assert(m.contains(k));
                    assert(self.keys().contains(k));
                    assert(self.keys() =~= self.keys().insert(k));
                }
                return (found, false);
            }
            i = i + 1;
        }
        proof {
            let m = self.entries@.map_values(|e: RegEntry| names_view(e.key@));
            assert(forall|j: int| 0 <= j < m.len() ==> m[j] != k);
            assert(!m.contains(k));
            assert(!self.keys().contains(k));
        }
        let name = synthesize_union_name(names);
        let entry = RegEntry { key: sorted, name: name.clone() };
        let ghost before = self.entries@;
        self.entries.push(entry);
        proof {
            let mb = before.map_values(|e: RegEntry| names_view(e.key@));
            let ma = self.entries@.map_values(|e: RegEntry| names_view(e.key@));
            assert(ma =~= mb.push(k));
            assert forall|x: Seq<Seq<char>>| ma.contains(x) <==> (mb.contains(x) || x == k) by {
                if ma.contains(x) {
                    let w = choose|w: int| 0 <= w < ma.len() && ma[w] == x;
                    if w < mb.len() {
                        assert(mb[w] == x);
                    }
                }
                if mb.contains(x) {
                    let w = choose|w: int| 0 <= w < mb.len() && mb[w] == x;
                    assert(ma[w] == x);
                }
                if x == k {
                    assert(ma[ma.len() - 1] == x);
                }
            }
            assert(self.keys() =~= old(self).keys().insert(k));
        }
        (name, true)
    }

    /// Looks a key up without ever creating it: `None` signals that a
    /// method references a union never seen during type generation.
    pub fn lookup(&self, names: &Vec<String>) -> (r: Option<String>)
        requires
            self.wf(),
        ensures
            r is Some <==> self.keys().contains(union_key(names_view(names@))),
            r is Some ==> r->Some_0@ == union_name(union_key(names_view(names@))),
    {
        let ghost k = union_key(names_view(names@));
        let sorted = sort_names(names);
        let mut i: usize = 0;
        while i < self.entries.len()
            invariant
                self.wf(),
                k == union_key(names_view(names@)),
                names_view(sorted@) == k,
                0 <= i <= self.entries@.len(),
                forall|j: int|
                    0 <= j < i ==> names_view(#[trigger] self.entries@[j].key@) != k,
            decreases self.entries@.len() - i,
        {
            if names_eq(&self.entries[i].key, &sorted) {
                proof {
                    assert(self.entries@[i as int].name@ == union_name(
                        names_view(self.entries@[i as int].key@),
                    ));
                    let m = self.entries@.map_values(|e: RegEntry| names_view(e.key@));
                    assert(m[i as int] == k);
                    assert(m.contains(k));
                }
                return Some(self.entries[i].name.clone());
            }
            i = i + 1;
        }
        proof {
            let m = self.entries@.map_values(|e: RegEntry| names_view(e.key@));
            assert(forall|j: int| 0 <= j < m.len() ==> m[j] != k);
            assert(!m.contains(k));
        }
        None
    }
}

} // verus!
