//! The module store: a root directory plus an ordered catalog of pulled
//! WebAssembly artifacts. The fetch itself is outside work; the store owns
//! the catalog bookkeeping and the deterministic path derivation.
use vstd::prelude::*;

use crate::reference::{registry_of, repository_of, tag_of, Reference};

verus! {

/// A catalog entry for one pulled artifact. The id is the whole reference
/// string and is the primary key.
#[derive(Debug)]
pub struct Module {
    pub id: String,
    pub repo_digests: Vec<String>,
    pub repo_tags: Vec<String>,
    pub size: u64,
    pub uid: Option<i64>,
    pub username: String,
}

/// The mathematical content of a catalog entry.
pub ghost struct ModuleView {
    pub id: String,
    pub repo_digests: Seq<String>,
    pub repo_tags: Seq<String>,
    pub size: u64,
    pub uid: Option<i64>,
    pub username: String,
}

impl View for Module {
    type V = ModuleView;

    open spec fn view(&self) -> ModuleView {
        ModuleView {
            id: self.id,
            repo_digests: self.repo_digests@,
            repo_tags: self.repo_tags@,
            size: self.size,
            uid: self.uid,
            username: self.username,
        }
    }
}

impl Clone for Module {
    fn clone(&self) -> (r: Self)
        ensures
            r@ == self@,
    {
        let r = Module {
            id: self.id.clone(),
            repo_digests: self.repo_digests.clone(),
            repo_tags: self.repo_tags.clone(),
            size: self.size,
            uid: self.uid,
            username: self.username.clone(),
        };
        proof {
            assert(r.repo_digests@ =~= self.repo_digests@);
            assert(r.repo_tags@ =~= self.repo_tags@);
        }
        r
    }
}

/// What can go wrong in the store.
#[derive(Clone, Copy, Debug, PartialEq, Eq, Structural)]
pub enum ModuleStoreError {
    CannotFetchModuleMetadata,
    CannotPullModule,
    InvalidPullPath,
    InvalidReference,
    LockNotAcquired,
    NotFound,
}

impl ModuleStoreError {
    pub fn description(&self) -> (r: &'static str)
        ensures
            *self == ModuleStoreError::NotFound ==> r@ == "module not found"@,
            *self == ModuleStoreError::CannotPullModule ==> r@ == "cannot pull module"@,
    {
        match *self {
            ModuleStoreError::CannotFetchModuleMetadata => "cannot fetch metadata from the module",
            ModuleStoreError::CannotPullModule => "cannot pull module",
            ModuleStoreError::InvalidPullPath => "invalid pull path",
            ModuleStoreError::InvalidReference => "invalid reference",
            ModuleStoreError::LockNotAcquired => "cannot acquire lock on store",
            ModuleStoreError::NotFound => "module not found",
        }
    }
}

/// The bytes of all entries together.
pub open spec fn sum_sizes(s: Seq<ModuleView>) -> int
    decreases s.len(),
{
    if s.len() == 0 {
        0
    } else {
        sum_sizes(s.drop_last()) + s.last().size
    }
}

/// Appending an entry grows the byte total by its size and the entry count
/// by one.
pub proof fn lemma_sum_push(s: Seq<ModuleView>, m: ModuleView)
    ensures
        sum_sizes(s.push(m)) == sum_sizes(s) + m.size,
{
    assert(s.push(m).drop_last() =~= s);
}

/// Removing an entry shrinks the byte total by its size and the entry count
/// by one.
pub proof fn lemma_sum_remove(s: Seq<ModuleView>, i: int)
    requires
        0 <= i < s.len(),
    ensures
        sum_sizes(s.remove(i)) == sum_sizes(s) - s[i].size,
    decreases s.len(),
{
    if i == s.len() - 1 {
        assert(s.remove(i) =~= s.drop_last());
    } else {
        lemma_sum_remove(s.drop_last(), i);
        assert(s.remove(i).drop_last() =~= s.drop_last().remove(i));
        assert(s.remove(i).last() == s.last());
    }
}

pub proof fn lemma_sum_prefix_le(s: Seq<ModuleView>, i: int)
    requires
        0 <= i <= s.len(),
    ensures
        sum_sizes(s.subrange(0, i)) <= sum_sizes(s),
    decreases s.len() - i,
{
    if i == s.len() {
        assert(s.subrange(0, i) =~= s);
    } else {
        lemma_sum_prefix_le(s, i + 1);
        assert(s.subrange(0, i + 1).drop_last() =~= s.subrange(0, i));
        assert(sum_sizes(s.subrange(0, i + 1)) == sum_sizes(s.subrange(0, i)) + s[i].size);
    }
}

/// Entry `i` is the first catalog entry whose id reads `id`.
pub open spec fn module_found_at(s: Seq<ModuleView>, id: Seq<char>, i: int) -> bool {
    &&& 0 <= i < s.len()
    &&& s[i].id@ == id
    &&& forall|j: int| 0 <= j < i ==> s[j].id@ != id
}

/// Some catalog entry has this id.
pub open spec fn has_module(s: Seq<ModuleView>, id: Seq<char>) -> bool {
    exists|i: int| 0 <= i < s.len() && s[i].id@ == id
}

/// The views of all entries of a catalog vector.
pub open spec fn catalog_of(v: Seq<Module>) -> Seq<ModuleView> {
    v.map_values(|m: Module| m@)
}

/// The first index with the sought id, among a vector of modules.
pub(crate) fn find_module(v: &Vec<Module>, key: &String) -> (r: Option<usize>)
    ensures
        match r {
            Some(i) => module_found_at(catalog_of(v@), key@, i as int),
            None => !has_module(catalog_of(v@), key@),
        },
{
    let n = v.len();
    let mut i: usize = 0;
    while i < n
        invariant
            n == v@.len(),
            0 <= i <= n,
            forall|j: int| 0 <= j < i ==> catalog_of(v@)[j].id@ != key@,
        decreases n - i,
    {
        if v[i].id == *key {
            return Some(i);
        }
        i = i + 1;
    }
    None
}

/// The store: a root directory for the on-disk tree and the in-memory
/// catalog, in insertion order.
pub struct ModuleStore {
    root_dir: String,
    modules: Vec<Module>,
}

impl View for ModuleStore {
    type V = Seq<ModuleView>;

    closed spec fn view(&self) -> Seq<ModuleView> {
        catalog_of(self.modules@)
    }
}

impl ModuleStore {
    pub closed spec fn spec_root_dir(&self) -> Seq<char> {
        self.root_dir@
    }

    /// An empty catalog over the given root directory.
    pub fn new(root_dir: String) -> (r: ModuleStore)
        ensures
            r@ == Seq::<ModuleView>::empty(),
            r.spec_root_dir() == root_dir@,
    {
        let r = ModuleStore { root_dir, modules: Vec::new() };
        proof {
            assert(r@ =~= Seq::<ModuleView>::empty());
        }
        r
    }

    /// Append an entry to the catalog.
    pub fn add(&mut self, module: Module)
        ensures
            final(self)@ == old(self)@.push(module@),
            final(self).spec_root_dir() == old(self).spec_root_dir(),
    {
        proof {
            assert(catalog_of(self.modules@.push(module)) =~= catalog_of(self.modules@).push(
                module@,
            ));
        }
        self.modules.push(module);
    }

    /// A snapshot copy of the catalog.
    pub fn list(&self) -> (r: Vec<Module>)
        ensures
            catalog_of(r@) == self@,
    {
        let n = self.modules.len();
        let mut out: Vec<Module> = Vec::new();
        let mut i: usize = 0;
        while i < n
            invariant
                n == self.modules@.len(),
                0 <= i <= n,
                out@.len() == i,
                forall|j: int| 0 <= j < i ==> out@[j]@ == catalog_of(self.modules@)[j],
            decreases n - i,
        {
            out.push(self.modules[i].clone());
            i = i + 1;
        }
        proof {
            assert(catalog_of(out@) =~= catalog_of(self.modules@));
        }
        out
    }

    /// A copy of the first entry with the given id, if any.
    pub fn get(&self, key: &String) -> (r: Option<Module>)
        ensures
            match r {
                Some(m) => exists|i: int| #[trigger] module_found_at(self@, key@, i)
                    && m@ == self@[i],
                None => !has_module(self@, key@),
            },
    {
        match find_module(&self.modules, key) {
            Some(i) => {
                let m = self.modules[i].clone();
                proof {
                    assert(module_found_at(self@, key@, i as int) && m@ == self@[i as int]);
                }
                Some(m)
            },
            None => None,
        }
    }

    /// Remove the entry with the given id; `NotFound` when no entry has it.
    pub fn remove(&mut self, key: String) -> (r: Result<Module, ModuleStoreError>)
        ensures
            final(self).spec_root_dir() == old(self).spec_root_dir(),
            match r {
                Ok(m) => exists|i: int|
                    #[trigger] module_found_at(old(self)@, key@, i) && m@ == old(self)@[i]
                        && final(self)@ == old(self)@.remove(i),
                Err(e) => e == ModuleStoreError::NotFound && final(self)@ == old(self)@
                    && !has_module(old(self)@, key@),
            },
    {
        match find_module(&self.modules, &key) {
            Some(i) => {
                proof {
                    assert(catalog_of(self.modules@.remove(i as int)) =~= catalog_of(
                        self.modules@,
                    ).remove(i as int));
                }
                let m = self.modules.remove(i);
                proof {
                    assert(module_found_at(old(self)@, key@, i as int));
                    assert(m@ == old(self)@[i as int]);
                    assert(self@ == old(self)@.remove(i as int));
                }
                Ok(m)
            },
            None => Err(ModuleStoreError::NotFound),
        }
    }

    /// Record a completed pull: the artifact for `reference` is on disk with
    /// `size` bytes, and the catalog gains its entry. The fetch and the file
    /// measurement themselves are the embedding program's work.
    pub fn record_pull(&mut self, reference: &Reference, size: u64)
        ensures
            final(self).spec_root_dir() == old(self).spec_root_dir(),
            final(self)@.len() == old(self)@.len() + 1,
            final(self)@ == old(self)@.push(final(self)@.last()),
            final(self)@.last().id@ == reference@,
            final(self)@.last().size == size,
            final(self)@.last().repo_digests.len() == 0,
            final(self)@.last().repo_tags.len() == 0,
            final(self)@.last().uid is None,
            final(self)@.last().username@ == Seq::<char>::empty(),
    {
        let m = Module {
            id: reference.whole().to_owned(),
            repo_digests: Vec::new(),
            repo_tags: Vec::new(),
            size,
            uid: None,
            username: String::new(),
        };
        self.add(m);
    }

    /// The store's root directory.
    pub fn root_dir(&self) -> (r: &String)
        ensures
            r@ == self.spec_root_dir(),
    {
        &self.root_dir
    }

    /// Bytes of all catalog entries together.
    pub fn used_bytes(&self) -> (r: u64)
        requires
            sum_sizes(self@) <= u64::MAX,
        ensures
            r == sum_sizes(self@),
    {
        used_bytes_of(&self.modules)
    }

    /// The number of catalog entries.
    pub fn used_inodes(&self) -> (r: u64)
        ensures
            r == self@.len(),
    {
        used_inodes_of(&self.modules)
    }

    /// `<root>/<registry>/<repository>/<tag>`, the directory an artifact is
    /// pulled into.
    pub fn pull_path(&self, r: &Reference) -> (p: String)
        requires
            r.wf(),
        ensures
            p@ == self.spec_root_dir() + "/"@ + registry_of(r@) + "/"@ + repository_of(r@)
                + "/"@ + tag_of(r@),
    {
        let mut p = self.root_dir.clone();
        p.append("/");
        p.append(r.registry());
        p.append("/");
        p.append(r.repository());
        p.append("/");
        p.append(r.tag());
        p
    }

    /// The artifact file inside the pull directory.
    pub fn pull_file_path(&self, r: &Reference) -> (p: String)
        requires
            r.wf(),
        ensures
            p@ == self.spec_root_dir() + "/"@ + registry_of(r@) + "/"@ + repository_of(r@)
                + "/"@ + tag_of(r@) + "/module.wasm"@,
    {
        let mut p = self.pull_path(r);
        p.append("/module.wasm");
        p
    }
}

/// Sum the sizes of a vector of modules.
pub fn used_bytes_of(v: &Vec<Module>) -> (r: u64)
    requires
        sum_sizes(catalog_of(v@)) <= u64::MAX,
    ensures
        r == sum_sizes(catalog_of(v@)),
{
    let n = v.len();
    let ghost all = catalog_of(v@);
    let mut acc: u64 = 0;
    let mut i: usize = 0;
    proof {
        assert(all.subrange(0, 0) =~= Seq::<ModuleView>::empty());
    }
    while i < n
        invariant
            n == v@.len(),
            all == catalog_of(v@),
            sum_sizes(all) <= u64::MAX,
            0 <= i <= n,
            acc == sum_sizes(all.subrange(0, i as int)),
        decreases n - i,
    {
        proof {
            lemma_sum_prefix_le(all, i + 1);
            assert(all.subrange(0, i + 1).drop_last() =~= all.subrange(0, i as int));
            assert(sum_sizes(all.subrange(0, i + 1)) == sum_sizes(all.subrange(0, i as int))
                + all[i as int].size);
            assert(sum_sizes(all.subrange(0, i as int)) >= 0) by {
                lemma_sum_nonneg(all.subrange(0, i as int));
            }
            assert(sum_sizes(all.subrange(0, i + 1)) >= 0) by {
                lemma_sum_nonneg(all.subrange(0, i + 1));
            }
        }
        acc = acc + v[i].size;
        i = i + 1;
    }
    proof {
        assert(all.subrange(0, n as int) =~= all);
    }
    acc
}

pub proof fn lemma_sum_nonneg(s: Seq<ModuleView>)
    ensures
        sum_sizes(s) >= 0,
    decreases s.len(),
{
    if s.len() > 0 {
        lemma_sum_nonneg(s.drop_last());
    }
}

/// Count a vector of modules, as a 64-bit value.
pub fn used_inodes_of(v: &Vec<Module>) -> (r: u64)
    ensures
        r == catalog_of(v@).len(),
{
    v.len() as u64
}

} // verus!
