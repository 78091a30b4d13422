//! The in-memory registries: sandboxes and containers, each keyed by id.
//! Both are vectors with pairwise-distinct ids, read and rewritten through
//! contracts over their sequences.
use vstd::prelude::*;

use crate::cri::{PodSandbox, UserContainer};

verus! {

/// A sandbox together with the ids of the containers attached to it.
#[derive(Debug)]
pub struct UserSandbox {
    pub inner: PodSandbox,
    pub running_containers: Vec<String>,
}

impl UserSandbox {
    pub open spec fn wf(&self) -> bool {
        self.inner.wf()
    }
}

pub open spec fn sandbox_ids_unique(s: Seq<UserSandbox>) -> bool {
    forall|i: int, j: int|
        0 <= i < j < s.len() ==> s[i].inner.id@ != s[j].inner.id@
}

pub open spec fn all_sandboxes_wf(s: Seq<UserSandbox>) -> bool {
    forall|i: int| 0 <= i < s.len() ==> (#[trigger] s[i]).wf()
}

pub open spec fn has_sandbox(s: Seq<UserSandbox>, id: Seq<char>) -> bool {
    exists|i: int| 0 <= i < s.len() && (#[trigger] s[i]).inner.id@ == id
}

/// The index of the sandbox with this id, where one exists.
pub open spec fn sandbox_index(s: Seq<UserSandbox>, id: Seq<char>) -> int {
    choose|i: int| 0 <= i < s.len() && (#[trigger] s[i]).inner.id@ == id
}

pub proof fn lemma_sandbox_index_unique(s: Seq<UserSandbox>, id: Seq<char>, i: int)
    requires
        sandbox_ids_unique(s),
        0 <= i < s.len(),
        s[i].inner.id@ == id,
    ensures
        has_sandbox(s, id),
        sandbox_index(s, id) == i,
{
    assert(has_sandbox(s, id));
    let j = sandbox_index(s, id);
    assert(0 <= j < s.len() && s[j].inner.id@ == id);
    if i < j {
        assert(s[i].inner.id@ != s[j].inner.id@);
    }
    if j < i {
        assert(s[j].inner.id@ != s[i].inner.id@);
    }
}

/// The map of pod sandboxes.
pub struct SandboxRegistry {
    items: Vec<UserSandbox>,
}

impl View for SandboxRegistry {
    type V = Seq<UserSandbox>;

    closed spec fn view(&self) -> Seq<UserSandbox> {
        self.items@
    }
}

impl SandboxRegistry {
    pub open spec fn wf(&self) -> bool {
        sandbox_ids_unique(self@) && all_sandboxes_wf(self@)
    }

    pub fn new() -> (r: SandboxRegistry)
        ensures
            r@ == Seq::<UserSandbox>::empty(),
            r.wf(),
    {
        let r = SandboxRegistry { items: Vec::new() };
        proof {
            assert(r@ =~= Seq::<UserSandbox>::empty());
        }
        r
    }

    pub fn len(&self) -> (n: usize)
        ensures
            n == self@.len(),
    {
        self.items.len()
    }

    /// The sandboxes, in insertion order.
    pub fn items(&self) -> (r: &Vec<UserSandbox>)
        ensures
            r@ == self@,
    {
        &self.items
    }

    /// The index of the sandbox with this id.
    pub fn find(&self, id: &String) -> (r: Option<usize>)
        requires
            self.wf(),
        ensures
            match r {
                Some(i) => has_sandbox(self@, id@) && i as int == sandbox_index(self@, id@)
                    && i < self@.len() && self@[i as int].inner.id@ == id@,
                None => !has_sandbox(self@, id@),
            },
    {
        let n = self.items.len();
        let mut i: usize = 0;
        while i < n
            invariant
                self.wf(),
                n == self@.len(),
                0 <= i <= n,
                forall|j: int| 0 <= j < i ==> (#[trigger] self@[j]).inner.id@ != id@,
            decreases n - i,
        {
            if self.items[i].inner.id == *id {
                proof {
                    lemma_sandbox_index_unique(self@, id@, i as int);
                }
                return Some(i);
            }
            i = i + 1;
        }
        None
    }

    /// The sandbox with this id.
    pub fn get(&self, id: &String) -> (r: Option<&UserSandbox>)
        requires
            self.wf(),
        ensures
            match r {
                Some(s) => has_sandbox(self@, id@) && *s == self@[sandbox_index(self@, id@)]
                    && s.inner.id@ == id@,
                None => !has_sandbox(self@, id@),
            },
    {
        match self.find(id) {
            Some(i) => Some(&self.items[i]),
            None => None,
        }
    }

    /// The sandbox at a known index.
    pub fn at(&self, i: usize) -> (r: &UserSandbox)
        requires
            i < self@.len(),
        ensures
            *r == self@[i as int],
    {
        &self.items[i]
    }

    /// Put a sandbox in: a new entry when the id is fresh, in place of the
    /// old entry otherwise.
    pub fn insert(&mut self, sandbox: UserSandbox)
        requires
            old(self).wf(),
            sandbox.wf(),
        ensures
            final(self).wf(),
            !has_sandbox(old(self)@, sandbox.inner.id@) ==> final(self)@ == old(self)@.push(
                sandbox,
            ),
            has_sandbox(old(self)@, sandbox.inner.id@) ==> final(self)@ == old(self)@.update(
                sandbox_index(old(self)@, sandbox.inner.id@),
                sandbox,
            ),
    {
        match self.find(&sandbox.inner.id) {
            Some(i) => {
                proof {
                    let updated = self@.update(i as int, sandbox);
                    assert(forall|k: int| 0 <= k < self@.len() && k != i ==> updated[k]
                        == self@[k]);
                }
                self.items.set(i, sandbox);
            },
            None => {
                self.items.push(sandbox);
            },
        }
    }

    /// Replace the sandbox at a known index; its id must not change.
    pub fn replace(&mut self, i: usize, sandbox: UserSandbox)
        requires
            old(self).wf(),
            i < old(self)@.len(),
            sandbox.wf(),
            sandbox.inner.id@ == old(self)@[i as int].inner.id@,
        ensures
            final(self).wf(),
            final(self)@ == old(self)@.update(i as int, sandbox),
    {
        proof {
            let updated = self@.update(i as int, sandbox);
            assert(forall|k: int| 0 <= k < self@.len() && k != i ==> updated[k] == self@[k]);
        }
        self.items.set(i, sandbox);
    }

    /// Remove the sandbox at a known index.
    pub fn remove_at(&mut self, i: usize)
        requires
            old(self).wf(),
            i < old(self)@.len(),
        ensures
            final(self).wf(),
            final(self)@ == old(self)@.remove(i as int),
    {
        self.items.remove(i);
    }
}

pub open spec fn container_ids_unique(s: Seq<UserContainer>) -> bool {
    forall|i: int, j: int|
        0 <= i < j < s.len() ==> s[i].id@ != s[j].id@
}

pub open spec fn all_containers_wf(s: Seq<UserContainer>) -> bool {
    forall|i: int| 0 <= i < s.len() ==> (#[trigger] s[i]).wf()
}

pub open spec fn has_container(s: Seq<UserContainer>, id: Seq<char>) -> bool {
    exists|i: int| 0 <= i < s.len() && (#[trigger] s[i]).id@ == id
}

/// The index of the container with this id, where one exists.
pub open spec fn container_index(s: Seq<UserContainer>, id: Seq<char>) -> int {
    choose|i: int| 0 <= i < s.len() && (#[trigger] s[i]).id@ == id
}

pub proof fn lemma_container_index_unique(s: Seq<UserContainer>, id: Seq<char>, i: int)
    requires
        container_ids_unique(s),
        0 <= i < s.len(),
        s[i].id@ == id,
    ensures
        has_container(s, id),
        container_index(s, id) == i,
{
    assert(has_container(s, id));
    let j = container_index(s, id);
    assert(0 <= j < s.len() && s[j].id@ == id);
    if i < j {
        assert(s[i].id@ != s[j].id@);
    }
    if j < i {
        assert(s[j].id@ != s[i].id@);
    }
}

/// The map of containers.
pub struct ContainerRegistry {
    items: Vec<UserContainer>,
}

impl View for ContainerRegistry {
    type V = Seq<UserContainer>;

    closed spec fn view(&self) -> Seq<UserContainer> {
        self.items@
    }
}

impl ContainerRegistry {
    pub open spec fn wf(&self) -> bool {
        container_ids_unique(self@) && all_containers_wf(self@)
    }

    pub fn new() -> (r: ContainerRegistry)
        ensures
            r@ == Seq::<UserContainer>::empty(),
            r.wf(),
    {
        let r = ContainerRegistry { items: Vec::new() };
        proof {
            assert(r@ =~= Seq::<UserContainer>::empty());
        }
        r
    }

    pub fn len(&self) -> (n: usize)
        ensures
            n == self@.len(),
    {
        self.items.len()
    }

    /// The containers, in insertion order.
    pub fn items(&self) -> (r: &Vec<UserContainer>)
        ensures
            r@ == self@,
    {
        &self.items
    }

    /// The index of the container with this id.
    pub fn find(&self, id: &String) -> (r: Option<usize>)
        requires
            self.wf(),
        ensures
            match r {
                Some(i) => has_container(self@, id@) && i as int == container_index(self@, id@)
                    && i < self@.len() && self@[i as int].id@ == id@,
                None => !has_container(self@, id@),
            },
    {
        let n = self.items.len();
        let mut i: usize = 0;
        while i < n
            invariant
                self.wf(),
                n == self@.len(),
                0 <= i <= n,
                forall|j: int| 0 <= j < i ==> (#[trigger] self@[j]).id@ != id@,
            decreases n - i,
        {
            if self.items[i].id == *id {
                proof {
                    lemma_container_index_unique(self@, id@, i as int);
                }
                return Some(i);
            }
            i = i + 1;
        }
        None
    }

    /// The container with this id.
    pub fn get(&self, id: &String) -> (r: Option<&UserContainer>)
        requires
            self.wf(),
        ensures
            match r {
                Some(c) => has_container(self@, id@) && *c == self@[container_index(self@, id@)]
                    && c.id@ == id@,
                None => !has_container(self@, id@),
            },
    {
        match self.find(id) {
            Some(i) => Some(&self.items[i]),
            None => None,
        }
    }

    /// The container at a known index.
    pub fn at(&self, i: usize) -> (r: &UserContainer)
        requires
            i < self@.len(),
        ensures
            *r == self@[i as int],
    {
        &self.items[i]
    }

    /// Put a container in: a new entry when the id is fresh, in place of the
    /// old entry otherwise.
    pub fn insert(&mut self, container: UserContainer)
        requires
            old(self).wf(),
            container.wf(),
        ensures
            final(self).wf(),
            !has_container(old(self)@, container.id@) ==> final(self)@ == old(self)@.push(
                container,
            ),
            has_container(old(self)@, container.id@) ==> final(self)@ == old(self)@.update(
                container_index(old(self)@, container.id@),
                container,
            ),
    {
        match self.find(&container.id) {
            Some(i) => {
                proof {
                    let updated = self@.update(i as int, container);
                    assert(forall|k: int| 0 <= k < self@.len() && k != i ==> updated[k]
                        == self@[k]);
                }
                self.items.set(i, container);
            },
            None => {
                self.items.push(container);
            },
        }
    }

    /// Replace the container at a known index; its id must not change.
    pub fn replace(&mut self, i: usize, container: UserContainer)
        requires
            old(self).wf(),
            i < old(self)@.len(),
            container.wf(),
            container.id@ == old(self)@[i as int].id@,
        ensures
            final(self).wf(),
            final(self)@ == old(self)@.update(i as int, container),
    {
        proof {
            let updated = self@.update(i as int, container);
            assert(forall|k: int| 0 <= k < self@.len() && k != i ==> updated[k] == self@[k]);
        }
        self.items.set(i, container);
    }

    /// Remove the container at a known index.
    pub fn remove_at(&mut self, i: usize)
        requires
            old(self).wf(),
            i < old(self)@.len(),
        ensures
            final(self).wf(),
            final(self)@ == old(self)@.remove(i as int),
    {
        self.items.remove(i);
    }
}

} // verus!
