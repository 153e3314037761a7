//! A snapshot of the game directory tree, the case-insensitive resolver over it,
//! and the location of the asset roots.
use vstd::prelude::*;
use crate::assets::views;
use crate::path::{components, is_named_segment, is_named_segment_exec, split_components};
use crate::text::{chars_of, eq_chars, find_from, lemma_first_index_none, lower_of, lowercase};

verus! {

/// Whether `a` sorts before `b`, comparing characters from index `i` on.
pub open spec fn name_lt_from(a: Seq<char>, b: Seq<char>, i: int) -> bool
    decreases a.len() - i,
{
    if i < 0 || i >= a.len() {
        0 <= i < b.len()
    } else if i >= b.len() {
        false
    } else if a[i] != b[i] {
        (a[i] as u32) < (b[i] as u32)
    } else {
        name_lt_from(a, b, i + 1)
    }
}

/// Lexicographic order of raw names, by character code.
pub open spec fn name_lt(a: Seq<char>, b: Seq<char>) -> bool {
    name_lt_from(a, b, 0)
}

/// Whether a name can stand for one directory entry.
pub open spec fn is_entry_name(name: Seq<char>) -> bool {
    is_named_segment(name) && !name.contains('/')
}

pub open spec fn models_word() -> Seq<char> {
    seq!['m', 'o', 'd', 'e', 'l', 's']
}

pub open spec fn materials_word() -> Seq<char> {
    seq!['m', 'a', 't', 'e', 'r', 'i', 'a', 'l', 's']
}

pub open spec fn sound_word() -> Seq<char> {
    seq!['s', 'o', 'u', 'n', 'd']
}

/// The directories that references are resolved against, one list per category.
pub struct AssetRoots {
    pub models: Vec<usize>,
    pub materials: Vec<usize>,
    pub sounds: Vec<usize>,
}

/// The entries under the game directory: node 0 is the game directory itself;
/// every other node is a file or a directory with its parent and its children.
pub struct GameTree {
    names: Vec<String>,
    lowers: Vec<String>,
    dirs: Vec<bool>,
    parents: Vec<usize>,
    children: Vec<Vec<usize>>,
}

impl GameTree {
    /// The number of nodes.
    pub closed spec fn len(&self) -> nat {
        self.names@.len()
    }

    /// The raw name of node `i`.
    pub closed spec fn name(&self, i: int) -> Seq<char> {
        self.names@[i]@
    }

    /// The lower-cased name of node `i`.
    pub closed spec fn lower(&self, i: int) -> Seq<char> {
        self.lowers@[i]@
    }

    /// Whether node `i` is a directory.
    pub closed spec fn is_dir(&self, i: int) -> bool {
        self.dirs@[i]
    }

    /// The parent of node `i`.
    pub closed spec fn parent(&self, i: int) -> int {
        self.parents@[i] as int
    }

    /// The children of node `i`, in the order they were added.
    pub closed spec fn children(&self, i: int) -> Seq<usize> {
        self.children@[i]@
    }

    pub closed spec fn fields_agree(&self) -> bool {
        &&& self.lowers@.len() == self.names@.len()
        &&& self.dirs@.len() == self.names@.len()
        &&& self.parents@.len() == self.names@.len()
        &&& self.children@.len() == self.names@.len()
    }

    /// The shape of a tree: node 0 is a directory; a parent comes before its
    /// children; the child lists and the parents agree.
    pub open spec fn wf(&self) -> bool {
        &&& self.fields_agree()
        &&& self.len() >= 1
        &&& self.is_dir(0)
        &&& forall|i: int| 0 <= i < self.len() ==> #[trigger] self.lower(i) == lower_of(self.name(i))
        &&& forall|i: int| 1 <= i < self.len() ==> 0 <= #[trigger] self.parent(i) < i
        &&& forall|i: int, k: int|
            0 <= i < self.len() && 0 <= k < self.children(i).len() ==> i < #[trigger] self.children(i)[k] < self.len()
                && self.parent(self.children(i)[k] as int) == i
    }

    /// The path of node `i` relative to the game directory, `/`-separated.
    pub open spec fn path(&self, i: int) -> Seq<char>
        decreases i,
    {
        if i <= 0 || i >= self.len() {
            seq![]
        } else if 0 < self.parent(i) < i {
            self.path(self.parent(i)) + seq!['/'] + self.name(i)
        } else {
            self.name(i)
        }
    }

    /// The first of `ch[k..]` whose raw name is `comp`, or -1.
    pub open spec fn find_exact(&self, ch: Seq<usize>, k: int, comp: Seq<char>) -> int
        decreases ch.len() - k,
    {
        if k < 0 || k >= ch.len() {
            -1
        } else if self.name(ch[k] as int) == comp {
            ch[k] as int
        } else {
            self.find_exact(ch, k + 1, comp)
        }
    }

    /// Among the first `n` of `ch`, the one whose lower-cased name is `lc` and whose
    /// raw name sorts first (the earlier one on a tie), or -1.
    pub open spec fn best_match(&self, ch: Seq<usize>, n: int, lc: Seq<char>) -> int
        decreases n,
    {
        if n <= 0 {
            -1
        } else {
            let b = self.best_match(ch, n - 1, lc);
            let c = ch[n - 1] as int;
            if self.lower(c) != lc {
                b
            } else if b < 0 || name_lt(self.name(c), self.name(b)) {
                c
            } else {
                b
            }
        }
    }

    /// The child of `node` that a component names: the one with exactly that name
    /// if there is one, else the case-insensitive match whose raw name sorts first;
    /// -1 if none.
    pub open spec fn pick_child(&self, node: int, comp: Seq<char>) -> int {
        let ch = self.children(node);
        let e = self.find_exact(ch, 0, comp);
        if e >= 0 {
            e
        } else {
            self.best_match(ch, ch.len() as int, lower_of(comp))
        }
    }

    /// The node reached from `node` by the components `comps[i..]`, or -1.
    pub open spec fn walk(&self, node: int, comps: Seq<Seq<char>>, i: int) -> int
        decreases comps.len() - i,
    {
        if i < 0 || i >= comps.len() {
            node
        } else if !self.is_dir(node) {
            -1
        } else {
            let c = self.pick_child(node, comps[i]);
            if c < 0 {
                -1
            } else {
                self.walk(c, comps, i + 1)
            }
        }
    }

    /// The node that the relative path `rel` names under `base`, or -1.
    pub open spec fn resolve(&self, base: int, rel: Seq<char>) -> int {
        self.walk(base, components(rel), 0)
    }

    proof fn lemma_find_exact(&self, ch: Seq<usize>, k: int, comp: Seq<char>)
        requires
            0 <= k,
        ensures
            self.find_exact(ch, k, comp) == -1 || ((exists|j: int|
                k <= j < ch.len() && ch[j] as int == self.find_exact(ch, k, comp)) && self.name(
                self.find_exact(ch, k, comp),
            ) == comp),
        decreases ch.len() - k,
    {
        if k < ch.len() {
            self.lemma_find_exact(ch, k + 1, comp);
            if self.name(ch[k] as int) == comp {
                assert(ch[k] as int == self.find_exact(ch, k, comp));
            }
        }
    }

    /// A tree that holds the game directory alone.
    pub fn new() -> (r: Self)
        ensures
            r.wf(),
            r.len() == 1,
    {
        let root = String::new();
        let lower = lowercase(root.as_str());
        let r = GameTree {
            names: vec![root],
            lowers: vec![lower],
            dirs: vec![true],
            parents: vec![0],
            children: vec![Vec::new()],
        };
        r
    }

    /// The number of nodes.
    pub fn node_count(&self) -> (r: usize)
        requires
            self.wf(),
        ensures
            r == self.len(),
    {
        self.names.len()
    }

    /// The raw name of node `i`.
    pub fn name_of(&self, i: usize) -> (r: String)
        requires
            self.wf(),
            i < self.len(),
        ensures
            r@ == self.name(i as int),
    {
        self.names[i].clone()
    }

    /// The parent of node `i`.
    pub fn parent_of(&self, i: usize) -> (r: usize)
        requires
            self.wf(),
            0 < i < self.len(),
        ensures
            r as int == self.parent(i as int),
            r < i,
    {
        assert(self.parent(i as int) < i);
        self.parents[i]
    }

    /// Whether node `i` is a directory.
    pub fn node_is_dir(&self, i: usize) -> (r: bool)
        requires
            self.wf(),
            i < self.len(),
        ensures
            r == self.is_dir(i as int),
    {
        self.dirs[i]
    }

    fn copy_indices(v: &Vec<usize>) -> (r: Vec<usize>)
        ensures
            r@ == v@,
    {
        let mut r: Vec<usize> = Vec::new();
        let mut i: usize = 0;
        while i < v.len()
            invariant
                i <= v@.len(),
                r@ == v@.subrange(0, i as int),
            decreases v.len() - i,
        {
            r.push(v[i]);
            assert(r@ =~= v@.subrange(0, i + 1));
            i += 1;
        }
        assert(r@ =~= v@);
        r
    }

    /// The first child of `node` whose raw name is exactly `comp`.
    pub fn find_exact_exec(&self, node: usize, comp: &String) -> (r: Option<usize>)
        requires
            self.wf(),
            node < self.len(),
        ensures
            match r {
                Some(c) => c as int == self.find_exact(self.children(node as int), 0, comp@) && c < self.len(),
                None => self.find_exact(self.children(node as int), 0, comp@) == -1,
            },
    {
        let ch = &self.children[node];
        let mut k: usize = 0;
        while k < ch.len()
            invariant
                self.wf(),
                node < self.len(),
                ch@ == self.children(node as int),
                k <= ch@.len(),
                self.find_exact(ch@, 0, comp@) == self.find_exact(ch@, k as int, comp@),
            decreases ch.len() - k,
        {
            let c = ch[k];
            assert(c < self.len());
            if self.names[c] == *comp {
                return Some(c);
            }
            k += 1;
        }
        None
    }

    /// Whether `a` sorts before `b`.
    pub fn name_less(a: &str, b: &str) -> (r: bool)
        ensures
            r == name_lt(a@, b@),
    {
        let x = chars_of(a);
        let y = chars_of(b);
        let mut i: usize = 0;
        while i < x.len()
            invariant
                x@ == a@,
                y@ == b@,
                i <= x@.len(),
                name_lt(a@, b@) == name_lt_from(a@, b@, i as int),
            decreases x.len() - i,
        {
            if i >= y.len() {
                return false;
            }
            if x[i] != y[i] {
                return (x[i] as u32) < (y[i] as u32);
            }
            i += 1;
        }
        i < y.len()
    }

    /// Among the children of `node`, the one whose lower-cased name is `lc` and
    /// whose raw name sorts first.
    fn best_match_exec(&self, node: usize, lc: &String) -> (r: Option<usize>)
        requires
            self.wf(),
            node < self.len(),
        ensures
            match r {
                Some(c) => c as int == self.best_match(
                    self.children(node as int),
                    self.children(node as int).len() as int,
                    lc@,
                ) && c < self.len(),
                None => self.best_match(
                    self.children(node as int),
                    self.children(node as int).len() as int,
                    lc@,
                ) == -1,
            },
    {
        let ch = &self.children[node];
        let mut best: Option<usize> = None;
        let mut n: usize = 0;
        while n < ch.len()
            invariant
                self.wf(),
                node < self.len(),
                ch@ == self.children(node as int),
                n <= ch@.len(),
                match best {
                    Some(b) => b as int == self.best_match(ch@, n as int, lc@) && b < self.len(),
                    None => self.best_match(ch@, n as int, lc@) == -1,
                },
            decreases ch.len() - n,
        {
            let c = ch[n];
            assert(c < self.len());
            if self.lowers[c] == *lc {
                match best {
                    None => {
                        best = Some(c);
                    },
                    Some(b) => {
                        if GameTree::name_less(self.names[c].as_str(), self.names[b].as_str()) {
                            best = Some(c);
                        }
                    },
                }
            }
            n += 1;
        }
        best
    }

    /// The child of `node` that the component `comp` names (see `pick_child`).
    fn pick_child_exec(&self, node: usize, comp: &String) -> (r: Option<usize>)
        requires
            self.wf(),
            node < self.len(),
        ensures
            match r {
                Some(c) => c as int == self.pick_child(node as int, comp@) && c < self.len(),
                None => self.pick_child(node as int, comp@) == -1,
            },
    {
        match self.find_exact_exec(node, comp) {
            Some(c) => Some(c),
            None => {
                let lc = lowercase(comp.as_str());
                self.best_match_exec(node, &lc)
            },
        }
    }

    /// Adds an entry named `name` under the directory `parent`, or finds the child
    /// of `parent` that already has that name; gives its node. Gives nothing where
    /// `parent` is not a directory of the tree or `name` cannot name an entry.
    pub fn add_entry(&mut self, parent: usize, name: &str, is_dir: bool) -> (r: Option<usize>)
        requires
            old(self).wf(),
        ensures
            final(self).wf(),
            r is None <==> (parent >= old(self).len() || !old(self).is_dir(parent as int) || !is_entry_name(name@)),
            r is None ==> *final(self) == *old(self),
            r matches Some(k) ==> k < final(self).len() && final(self).name(k as int) == name@
                && final(self).parent(k as int) == parent,
            r is Some && old(self).find_exact(old(self).children(parent as int), 0, name@) >= 0 ==> *final(self)
                == *old(self) && r == Some(
                old(self).find_exact(old(self).children(parent as int), 0, name@) as usize,
            ),
            r is Some && old(self).find_exact(old(self).children(parent as int), 0, name@) < 0 ==> {
                &&& r == Some(old(self).len() as usize)
                &&& final(self).len() == old(self).len() + 1
                &&& final(self).is_dir(old(self).len() as int) == is_dir
                &&& final(self).children(old(self).len() as int).len() == 0
                &&& final(self).children(parent as int) == old(self).children(parent as int).push(
                    old(self).len() as usize,
                )
                &&& forall|i: int|
                    0 <= i < old(self).len() ==> final(self).name(i) == old(self).name(i)
                        && final(self).is_dir(i) == old(self).is_dir(i) && final(self).parent(i)
                        == old(self).parent(i) && (i != parent ==> final(self).children(i)
                        == old(self).children(i))
            },
    {
        if parent >= self.names.len() || !self.dirs[parent] {
            return None;
        }
        let v = chars_of(name);
        let slash = find_from(&v, '/', 0);
        proof { lemma_first_index_none(v@, '/', 0); }
        if !is_named_segment_exec(&v, 0, v.len()) || slash.is_some() {
            assert(v@.subrange(0, v@.len() as int) =~= v@);
            if slash.is_none() {
                assert(!is_named_segment(name@));
            } else {
                let j = slash.unwrap();
                assert(name@[j as int] == '/');
                assert(name@.contains('/'));
            }
            return None;
        }
        assert(v@.subrange(0, v@.len() as int) =~= v@);
        assert(!name@.contains('/'));
        let n = name.to_string();
        if let Some(c) = self.find_exact_exec(parent, &n) {
            proof { self.lemma_find_exact(self.children(parent as int), 0, name@); }
            let ghost j = choose|j: int| 0 <= j < self.children(parent as int).len()
                && self.children(parent as int)[j] as int == c as int;
            assert(self.parent(self.children(parent as int)[j] as int) == parent);
            return Some(c);
        }
        let k = self.names.len();
        let lower = lowercase(name);
        let mut ch = GameTree::copy_indices(&self.children[parent]);
        ch.push(k);
        let ghost old_self = *self;
        self.names.push(n);
        self.lowers.push(lower);
        self.dirs.push(is_dir);
        self.parents.push(parent);
        self.children.push(Vec::new());
        self.children.set(parent, ch);
        proof {
            assert(self.name(k as int) == name@);
            assert forall|i: int| 0 <= i < self.len() implies #[trigger] self.lower(i) == lower_of(self.name(i)) by {
                if i < k {
                    assert(self.lower(i) == old_self.lower(i));
                    assert(self.name(i) == old_self.name(i));
                }
            }
            assert forall|i: int| 1 <= i < self.len() implies 0 <= #[trigger] self.parent(i) < i by {
                if i < k {
                    assert(self.parent(i) == old_self.parent(i));
                }
            }
            assert forall|i: int, j: int|
                0 <= i < self.len() && 0 <= j < self.children(i).len() implies i < #[trigger] self.children(i)[j] < self.len()
                    && self.parent(self.children(i)[j] as int) == i by {
                if i == parent as int {
                    if j < old_self.children(i).len() {
                        assert(self.children(i)[j] == old_self.children(i)[j]);
                    }
                } else if i < k {
                    assert(self.children(i) == old_self.children(i));
                }
            }
        }
        Some(k)
    }

    /// The path of node `i` relative to the game directory.
    pub fn path_of(&self, i: usize) -> (r: String)
        requires
            self.wf(),
            i < self.len(),
        ensures
            r@ == self.path(i as int),
        decreases i,
    {
        if i == 0 {
            return String::new();
        }
        let p = self.parents[i];
        assert(self.parent(i as int) < i);
        if p > 0 {
            let mut s = self.path_of(p);
            s.append("/");
            s.append(self.names[i].as_str());
            proof { reveal_strlit("/"); }
            assert(s@ =~= self.path(i as int));
            s
        } else {
            self.names[i].clone()
        }
    }

    /// The directories among the first `n` nodes whose lower-cased name is `word`:
    /// each one itself, or its parent where `up` holds.
    pub open spec fn dirs_named(&self, n: int, word: Seq<char>, up: bool) -> Seq<usize>
        decreases n,
    {
        if n <= 1 {
            seq![]
        } else {
            self.dirs_named(n - 1, word, up) + if self.is_dir(n - 1) && self.lower(n - 1) == word {
                seq![(if up { self.parent(n - 1) } else { n - 1 }) as usize]
            } else {
                seq![]
            }
        }
    }

    /// The asset roots: the parent of each directory named `models`, and each
    /// directory named `materials` or `sound`, names compared case-insensitively,
    /// in node order.
    pub fn find_asset_directories(&self) -> (r: AssetRoots)
        requires
            self.wf(),
        ensures
            r.models@ == self.dirs_named(self.len() as int, models_word(), true),
            r.materials@ == self.dirs_named(self.len() as int, materials_word(), false),
            r.sounds@ == self.dirs_named(self.len() as int, sound_word(), false),
            forall|k: int| 0 <= k < r.models@.len() ==> r.models@[k] < self.len(),
            forall|k: int| 0 <= k < r.materials@.len() ==> r.materials@[k] < self.len(),
            forall|k: int| 0 <= k < r.sounds@.len() ==> r.sounds@[k] < self.len(),
    {
        let models = vec!['m', 'o', 'd', 'e', 'l', 's'];
        let materials = vec!['m', 'a', 't', 'e', 'r', 'i', 'a', 'l', 's'];
        let sound = vec!['s', 'o', 'u', 'n', 'd'];
        assert(models@ =~= models_word());
        assert(materials@ =~= materials_word());
        assert(sound@ =~= sound_word());
        let mut r = AssetRoots { models: Vec::new(), materials: Vec::new(), sounds: Vec::new() };
        let n = self.names.len();
        let mut i: usize = 1;
        while i < n
            invariant
                self.wf(),
                n == self.len(),
                1 <= i <= n,
                models@ == models_word(),
                materials@ == materials_word(),
                sound@ == sound_word(),
                r.models@ == self.dirs_named(i as int, models_word(), true),
                r.materials@ == self.dirs_named(i as int, materials_word(), false),
                r.sounds@ == self.dirs_named(i as int, sound_word(), false),
                forall|k: int| 0 <= k < r.models@.len() ==> r.models@[k] < self.len(),
                forall|k: int| 0 <= k < r.materials@.len() ==> r.materials@[k] < self.len(),
                forall|k: int| 0 <= k < r.sounds@.len() ==> r.sounds@[k] < self.len(),
            decreases n - i,
        {
            if self.dirs[i] {
                let lc = chars_of(self.lowers[i].as_str());
                if eq_chars(&lc, &models) {
                    r.models.push(self.parents[i]);
                } else if eq_chars(&lc, &materials) {
                    r.materials.push(i);
                } else if eq_chars(&lc, &sound) {
                    r.sounds.push(i);
                }
            }
            assert(r.models@ =~= self.dirs_named(i + 1, models_word(), true));
            assert(r.materials@ =~= self.dirs_named(i + 1, materials_word(), false));
            assert(r.sounds@ =~= self.dirs_named(i + 1, sound_word(), false));
            i += 1;
        }
        r
    }

    /// Resolves the relative path `rel` under the directory `base`, matching each
    /// component by its exact name first, then case-insensitively.
    pub fn find_asset_case_insensitive(&self, base: usize, rel: &str) -> (r: Option<usize>)
        requires
            self.wf(),
            base < self.len(),
        ensures
            match r {
                Some(k) => k as int == self.resolve(base as int, rel@) && k < self.len(),
                None => self.resolve(base as int, rel@) == -1,
            },
    {
        let comps = split_components(rel);
        let ghost cs = components(rel@);
        let mut cur: usize = base;
        let mut i: usize = 0;
        while i < comps.len()
            invariant
                self.wf(),
                cur < self.len(),
                views(comps@) == cs,
                cs == components(rel@),
                i <= comps@.len(),
                self.walk(base as int, cs, 0) == self.walk(cur as int, cs, i as int),
            decreases comps.len() - i,
        {
            if !self.dirs[cur] {
                assert(self.walk(cur as int, cs, i as int) == -1);
                return None;
            }
            assert(cs[i as int] == comps@[i as int]@);
            match self.pick_child_exec(cur, &comps[i]) {
                None => {
                    assert(self.walk(cur as int, cs, i as int) == -1);
                    return None;
                },
                Some(c) => {
                    assert(self.walk(cur as int, cs, i as int) == self.walk(c as int, cs, i + 1));
                    cur = c;
                },
            }
            i += 1;
        }
        Some(cur)
    }
}

} // verus!
