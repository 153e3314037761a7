//! The reference set: three insert-only buckets of logical asset paths.
use vstd::prelude::*;
use crate::text::{chars_of, lower_of, lowercase, string_of};

verus! {

/// The views of a sequence of strings.
pub open spec fn views(v: Seq<String>) -> Seq<Seq<char>> {
    v.map_values(|s: String| s@)
}

/// A path with each backslash turned into a forward slash.
pub open spec fn forward_slashes(s: Seq<char>) -> Seq<char> {
    s.map_values(|c: char| if c == '\\' { '/' } else { c })
}

/// The normal form of a logical reference: slash-normalized, then lower-cased.
pub open spec fn normalized(s: Seq<char>) -> Seq<char> {
    lower_of(forward_slashes(s))
}

/// `s` with every backslash replaced by a forward slash.
pub fn to_forward_slashes(s: &str) -> (r: String)
    ensures
        r@ == forward_slashes(s@),
{
    let mut v = chars_of(s);
    let n = v.len();
    let mut i: usize = 0;
    while i < n
        invariant
            n == s@.len(),
            v@.len() == n,
            i <= n,
            forall|k: int| 0 <= k < i ==> v@[k] == forward_slashes(s@)[k],
            forall|k: int| i <= k < n ==> v@[k] == s@[k],
        decreases n - i,
    {
        if v[i] == '\\' {
            v.set(i, '/');
        }
        i += 1;
    }
    assert(v@ =~= forward_slashes(s@));
    string_of(&v)
}

/// The normal form of a logical reference.
pub fn normalize(s: &str) -> (r: String)
    ensures
        r@ == normalized(s@),
{
    let f = to_forward_slashes(s);
    lowercase(f.as_str())
}

/// Adds `s` to `v` unless an equal string is there; says whether it was added.
fn insert_unique(v: &mut Vec<String>, s: String) -> (added: bool)
    requires
        views(old(v)@).no_duplicates(),
    ensures
        views(final(v)@).no_duplicates(),
        views(final(v)@).to_set() == views(old(v)@).to_set().insert(s@),
        added == !views(old(v)@).contains(s@),
        final(v)@.len() == old(v)@.len() + if added { 1int } else { 0int },
{
    let n = v.len();
    let mut i: usize = 0;
    while i < n
        invariant
            n == v@.len(),
            i <= n,
            v@ == old(v)@,
            views(v@).no_duplicates(),
            forall|k: int| 0 <= k < i ==> v@[k]@ != s@,
        decreases n - i,
    {
        if v[i] == s {
            assert(views(v@)[i as int] == s@);
            assert(views(v@).to_set().insert(s@) =~= views(v@).to_set());
            return false;
        }
        i += 1;
    }
    assert(!views(v@).contains(s@)) by {
        if views(v@).contains(s@) {
            let k = choose|k: int| 0 <= k < views(v@).len() && views(v@)[k] == s@;
            assert(v@[k]@ == s@);
        }
    }
    let ghost before = v@;
    v.push(s);
    assert(views(v@) =~= views(before).push(s@));
    assert(views(v@).to_set() =~= views(before).to_set().insert(s@)) by {
        views(before).lemma_push_to_set_commute(s@);
    }
    true
}

/// The logical references that the maps and the expansion steps found, in three
/// buckets: models, materials and sounds. Entries are in normal form and unique;
/// the set only ever grows.
pub struct UniqueAssets {
    models_name: Vec<String>,
    materials_name: Vec<String>,
    sounds_name: Vec<String>,
}

impl UniqueAssets {
    /// The model references, in the order they were first found.
    pub closed spec fn models(&self) -> Seq<Seq<char>> {
        views(self.models_name@)
    }

    /// The material references, in the order they were first found.
    pub closed spec fn materials(&self) -> Seq<Seq<char>> {
        views(self.materials_name@)
    }

    /// The sound references, in the order they were first found.
    pub closed spec fn sounds(&self) -> Seq<Seq<char>> {
        views(self.sounds_name@)
    }

    /// No bucket holds an entry twice.
    pub open spec fn wf(&self) -> bool {
        &&& self.models().no_duplicates()
        &&& self.materials().no_duplicates()
        &&& self.sounds().no_duplicates()
    }

    pub open spec fn model_set(&self) -> Set<Seq<char>> {
        self.models().to_set()
    }

    pub open spec fn material_set(&self) -> Set<Seq<char>> {
        self.materials().to_set()
    }

    pub open spec fn sound_set(&self) -> Set<Seq<char>> {
        self.sounds().to_set()
    }

    /// The number of references over the three buckets.
    pub open spec fn total(&self) -> int {
        self.models().len() + self.materials().len() + self.sounds().len() as int
    }

    /// An empty reference set.
    pub fn new() -> (r: Self)
        ensures
            r.wf(),
            r.models().len() == 0,
            r.materials().len() == 0,
            r.sounds().len() == 0,
    {
        let r = UniqueAssets { models_name: Vec::new(), materials_name: Vec::new(), sounds_name: Vec::new() };
        assert(r.models() =~= Seq::<Seq<char>>::empty());
        assert(r.materials() =~= Seq::<Seq<char>>::empty());
        assert(r.sounds() =~= Seq::<Seq<char>>::empty());
        r
    }

    /// Adds a model reference in normal form; says whether it was new.
    pub fn insert_model(&mut self, r: &str) -> (added: bool)
        requires
            old(self).wf(),
        ensures
            final(self).wf(),
            final(self).model_set() == old(self).model_set().insert(normalized(r@)),
            final(self).materials() == old(self).materials(),
            final(self).sounds() == old(self).sounds(),
            added == !old(self).model_set().contains(normalized(r@)),
    {
        let n = normalize(r);
        proof { lemma_views_contains(self.models_name@, n@); }
        insert_unique(&mut self.models_name, n)
    }

    /// Adds a material reference in normal form; says whether it was new.
    pub fn insert_material(&mut self, r: &str) -> (added: bool)
        requires
            old(self).wf(),
        ensures
            final(self).wf(),
            final(self).material_set() == old(self).material_set().insert(normalized(r@)),
            final(self).models() == old(self).models(),
            final(self).sounds() == old(self).sounds(),
            added == !old(self).material_set().contains(normalized(r@)),
    {
        let n = normalize(r);
        proof { lemma_views_contains(self.materials_name@, n@); }
        insert_unique(&mut self.materials_name, n)
    }

    /// Adds a sound reference in normal form; says whether it was new.
    pub fn insert_sound(&mut self, r: &str) -> (added: bool)
        requires
            old(self).wf(),
        ensures
            final(self).wf(),
            final(self).sound_set() == old(self).sound_set().insert(normalized(r@)),
            final(self).models() == old(self).models(),
            final(self).materials() == old(self).materials(),
            added == !old(self).sound_set().contains(normalized(r@)),
    {
        let n = normalize(r);
        proof { lemma_views_contains(self.sounds_name@, n@); }
        insert_unique(&mut self.sounds_name, n)
    }

    /// The model references.
    pub fn models_name(&self) -> (r: &Vec<String>)
        ensures
            views(r@) == self.models(),
    {
        &self.models_name
    }

    /// The material references.
    pub fn materials_name(&self) -> (r: &Vec<String>)
        ensures
            views(r@) == self.materials(),
    {
        &self.materials_name
    }

    /// The sound references.
    pub fn sounds_name(&self) -> (r: &Vec<String>)
        ensures
            views(r@) == self.sounds(),
    {
        &self.sounds_name
    }

    /// Whether all three buckets are empty.
    pub fn is_empty(&self) -> (r: bool)
        ensures
            r == (self.total() == 0),
    {
        self.models_name.len() == 0 && self.materials_name.len() == 0 && self.sounds_name.len() == 0
    }

    /// The number of references over the three buckets (`usize::MAX` if larger).
    pub fn len(&self) -> (r: usize)
        ensures
            r as int == if self.total() <= usize::MAX { self.total() } else { usize::MAX as int },
    {
        self.models_name.len().saturating_add(self.materials_name.len()).saturating_add(
            self.sounds_name.len(),
        )
    }
}

/// The normal forms of a sequence of references, as a set.
pub open spec fn normal_set(refs: Seq<Seq<char>>) -> Set<Seq<char>> {
    refs.map_values(|r: Seq<char>| normalized(r)).to_set()
}

proof fn lemma_normal_set_step(refs: Seq<Seq<char>>, i: int)
    requires
        0 <= i < refs.len(),
    ensures
        normal_set(refs.take(i + 1)) == normal_set(refs.take(i)).insert(normalized(refs[i])),
{
    let f = |r: Seq<char>| normalized(r);
    assert(refs.take(i + 1).map_values(f) =~= refs.take(i).map_values(f).push(normalized(refs[i])));
    refs.take(i).map_values(f).lemma_push_to_set_commute(normalized(refs[i]));
}

impl UniqueAssets {
    /// Adds each of `refs` as a model reference.
    pub fn insert_models(&mut self, refs: &Vec<String>)
        requires
            old(self).wf(),
        ensures
            final(self).wf(),
            final(self).model_set() == old(self).model_set() + normal_set(views(refs@)),
            final(self).materials() == old(self).materials(),
            final(self).sounds() == old(self).sounds(),
    {
        let mut i: usize = 0;
        while i < refs.len()
            invariant
                self.wf(),
                i <= refs@.len(),
                self.model_set() == old(self).model_set() + normal_set(views(refs@).take(i as int)),
                self.materials() == old(self).materials(),
                self.sounds() == old(self).sounds(),
            decreases refs.len() - i,
        {
            proof { lemma_normal_set_step(views(refs@), i as int); }
            self.insert_model(refs[i].as_str());
            assert(self.model_set() =~= old(self).model_set() + normal_set(views(refs@).take(i + 1)));
            i += 1;
        }
        assert(views(refs@).take(refs@.len() as int) =~= views(refs@));
    }

    /// Adds each of `refs` as a material reference.
    pub fn insert_materials(&mut self, refs: &Vec<String>)
        requires
            old(self).wf(),
        ensures
            final(self).wf(),
            final(self).material_set() == old(self).material_set() + normal_set(views(refs@)),
            final(self).models() == old(self).models(),
            final(self).sounds() == old(self).sounds(),
    {
        let mut i: usize = 0;
        while i < refs.len()
            invariant
                self.wf(),
                i <= refs@.len(),
                self.material_set() == old(self).material_set() + normal_set(views(refs@).take(i as int)),
                self.models() == old(self).models(),
                self.sounds() == old(self).sounds(),
            decreases refs.len() - i,
        {
            proof { lemma_normal_set_step(views(refs@), i as int); }
            self.insert_material(refs[i].as_str());
            assert(self.material_set() =~= old(self).material_set() + normal_set(views(refs@).take(i + 1)));
            i += 1;
        }
        assert(views(refs@).take(refs@.len() as int) =~= views(refs@));
    }

    /// Adds each of `refs` as a sound reference.
    pub fn insert_sounds(&mut self, refs: &Vec<String>)
        requires
            old(self).wf(),
        ensures
            final(self).wf(),
            final(self).sound_set() == old(self).sound_set() + normal_set(views(refs@)),
            final(self).models() == old(self).models(),
            final(self).materials() == old(self).materials(),
    {
        let mut i: usize = 0;
        while i < refs.len()
            invariant
                self.wf(),
                i <= refs@.len(),
                self.sound_set() == old(self).sound_set() + normal_set(views(refs@).take(i as int)),
                self.models() == old(self).models(),
                self.materials() == old(self).materials(),
            decreases refs.len() - i,
        {
            proof { lemma_normal_set_step(views(refs@), i as int); }
            self.insert_sound(refs[i].as_str());
            assert(self.sound_set() =~= old(self).sound_set() + normal_set(views(refs@).take(i + 1)));
            i += 1;
        }
        assert(views(refs@).take(refs@.len() as int) =~= views(refs@));
    }
}

impl Default for UniqueAssets {
    fn default() -> (r: Self)
        ensures
            r.wf(),
            r.total() == 0,
    {
        UniqueAssets::new()
    }
}

proof fn lemma_views_contains(v: Seq<String>, s: Seq<char>)
    ensures
        views(v).contains(s) == views(v).to_set().contains(s),
{
}

/// Two references with the same normal form give one entry: inserting both
/// leaves the same set as inserting the first alone, and adds at most one entry.
pub proof fn lemma_same_normal_form_one_entry(set: Set<Seq<char>>, r1: Seq<char>, r2: Seq<char>)
    requires
        normalized(r1) == normalized(r2),
    ensures
        set.insert(normalized(r1)).insert(normalized(r2)) == set.insert(normalized(r1)),
        set.insert(normalized(r1)).insert(normalized(r2)).difference(set).subset_of(
            Set::empty().insert(normalized(r1)),
        ),
{
    assert(set.insert(normalized(r1)).insert(normalized(r2)) =~= set.insert(normalized(r1)));
    assert(set.insert(normalized(r1)).difference(set).subset_of(Set::empty().insert(normalized(r1))));
}

} // verus!
