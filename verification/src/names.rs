//! Texts that are each kept once, with a place of their own.
use vstd::hash_map::StringHashMap;
use vstd::prelude::*;

verus! {

broadcast use vstd::hash_map::group_hash_map_axioms;

/// Whether no text occurs twice.
pub open spec fn all_distinct(texts: Seq<Seq<char>>) -> bool {
    forall|i: int, j: int| 0 <= i < j < texts.len() ==> texts[i] != texts[j]
}

/// Texts in the order in which they first came up.
pub struct Names {
    texts: Vec<String>,
    places: StringHashMap<usize>,
}

impl View for Names {
    type V = Seq<Seq<char>>;

    closed spec fn view(&self) -> Seq<Seq<char>> {
        Seq::new(self.texts@.len(), |i: int| self.texts@[i]@)
    }
}

impl Names {
    pub closed spec fn wf(&self) -> bool {
        &&& all_distinct(self@)
        &&& forall|i: int|
            0 <= i < self@.len() ==> self.places@.contains_key(#[trigger] self@[i])
                && self.places@[self@[i]] == i
        &&& forall|s: Seq<char>|
            self.places@.contains_key(s) ==> 0 <= #[trigger] self.places@[s] < self@.len()
                && self@[self.places@[s] as int] == s
    }

    /// The texts that are kept are distinct.
    pub proof fn texts_are_distinct(&self)
        requires
            self.wf(),
        ensures
            all_distinct(self@),
    {
    }

    pub fn new() -> (n: Self)
        ensures
            n.wf(),
            n@ == Seq::<Seq<char>>::empty(),
    {
        let n = Names { texts: Vec::new(), places: StringHashMap::new() };
        assert(n@ =~= Seq::<Seq<char>>::empty());
        n
    }

    pub fn len(&self) -> (n: usize)
        ensures
            n == self@.len(),
    {
        self.texts.len()
    }

    /// The text at a place.
    pub fn get(&self, i: usize) -> (s: &String)
        requires
            i < self@.len(),
        ensures
            s@ == self@[i as int],
    {
        &self.texts[i]
    }

    /// The place of a text, which it gets at the end if it is new.
    pub fn place(&mut self, text: String) -> (i: usize)
        requires
            old(self).wf(),
        ensures
            final(self).wf(),
            i < final(self)@.len(),
            final(self)@[i as int] == text@,
            final(self)@ == (if old(self)@.contains(text@) {
                old(self)@
            } else {
                old(self)@.push(text@)
            }),
            old(self)@.contains(text@) ==> i < old(self)@.len(),
            !old(self)@.contains(text@) ==> i == old(self)@.len(),
    {
        let ghost before = self@;
        let ghost key = text@;
        if let Some(i) = self.places.get(text.as_str()) {
            assert(before[*i as int] == key);
            return *i;
        }
        proof {
            if before.contains(key) {
                let k = choose|k: int| 0 <= k < before.len() && before[k] == key;
                assert(self.places@.contains_key(before[k]));
            }
        }
        let i: usize = self.texts.len();
        self.texts.push(text.clone());
        self.places.insert(text, i);
        assert(self@ =~= before.push(key));
        i
    }
}

} // verus!
