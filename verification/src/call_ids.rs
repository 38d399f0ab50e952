//! A set of call identifiers.

use crate::text;
use vstd::prelude::*;

verus! {

/// A set of call identifiers. None is held twice.
#[derive(Debug)]
pub struct CallIdSet {
    ids: Vec<String>,
}

impl View for CallIdSet {
    type V = Set<Seq<char>>;

    closed spec fn view(&self) -> Set<Seq<char>> {
        self.ids.deep_view().to_set()
    }
}

impl DeepView for CallIdSet {
    type V = Set<Seq<char>>;

    open spec fn deep_view(&self) -> Set<Seq<char>> {
        self@
    }
}

impl CallIdSet {
    #[verifier::type_invariant]
    spec fn no_duplicates(self) -> bool {
        self.ids.deep_view().no_duplicates()
    }

    /// A set without identifiers.
    pub fn new() -> (r: Self)
        ensures
            r@ == Set::<Seq<char>>::empty(),
    {
        let r = CallIdSet { ids: Vec::new() };
        assert(r@ =~= Set::<Seq<char>>::empty());
        r
    }

    /// Tells whether the set holds an identifier.
    pub fn contains(&self, id: &str) -> (r: bool)
        ensures
            r == self@.contains(id@),
    {
        let ghost all = self.ids.deep_view();
        let mut i: usize = 0;
        while i < self.ids.len()
            invariant
                i <= self.ids.len(),
                all == self.ids.deep_view(),
                forall|k: int| 0 <= k < i ==> #[trigger] all[k] != id@,
            decreases self.ids.len() - i,
        {
            assert(all[i as int] == self.ids@[i as int]@);
            if text::same_text(self.ids[i].as_str(), id) {
                assert(self.ids.deep_view().to_set().contains(id@));
                return true;
            }
            i = i + 1;
        }
        assert(!all.contains(id@));
        false
    }

    /// Adds an identifier.
    pub fn insert(&mut self, id: &str)
        ensures
            final(self)@ == old(self)@.insert(id@),
    {
        if self.contains(id) {
            assert(self@ =~= self@.insert(id@));
            return;
        }
        proof {
            use_type_invariant(&*self);
        }
        let ghost start = self.ids.deep_view();
        let mut ids: Vec<String> = Vec::new();
        std::mem::swap(&mut ids, &mut self.ids);
        ids.push(id.to_owned());
        proof {
            let after = ids.deep_view();
            assert(after =~= start.push(id@));
            assert(after.to_set() =~= start.to_set().insert(id@)) by {
                assert forall|x: Seq<char>| after.contains(x) implies start.contains(x) || x
                    == id@ by {
                    let k = choose|k: int| 0 <= k < after.len() && after[k] == x;
                    if k < start.len() {
                        assert(start[k] == x);
                    }
                }
                assert forall|x: Seq<char>| start.contains(x) || x == id@ implies after.contains(
                    x,
                ) by {
                    if x == id@ {
                        assert(after[start.len() as int] == x);
                    } else {
                        let k = choose|k: int| 0 <= k < start.len() && start[k] == x;
                        assert(after[k] == x);
                    }
                }
            }
            assert(!start.contains(id@));
            assert(after.no_duplicates()) by {
                assert forall|i: int, j: int|
                    0 <= i < after.len() && 0 <= j < after.len() && i != j implies after[i]
                    != after[j] by {
                    if i == start.len() {
                        assert(start.contains(after[j]));
                    }
                    if j == start.len() {
                        assert(start.contains(after[i]));
                    }
                }
            }
        }
        self.ids = ids;
    }

    /// Takes all identifiers out.
    pub fn clear(&mut self)
        ensures
            final(self)@ == Set::<Seq<char>>::empty(),
    {
        self.ids = Vec::new();
        assert(self@ =~= Set::<Seq<char>>::empty());
    }

    /// Tells whether the set holds nothing.
    pub fn is_empty(&self) -> (r: bool)
        ensures
            r == (self@ == Set::<Seq<char>>::empty()),
    {
        if self.ids.len() == 0 {
            assert(self@ =~= Set::<Seq<char>>::empty());
            true
        } else {
            assert(self@.contains(self.ids.deep_view()[0]));
            false
        }
    }
}

} // verus!
