//! The image-store face of the catalog: the same records as the module
//! store, keyed lookups included, plus path derivation from a borrowed
//! image reference.
use vstd::prelude::*;

use crate::reference::ImageReference;
use crate::store::{
    catalog_of, find_module, has_module, module_found_at, sum_sizes, used_bytes_of,
    used_inodes_of, Module, ModuleView,
};

verus! {

/// An error carrying its description.
#[derive(Debug)]
pub struct ImageStoreErr {
    details: String,
}

impl ImageStoreErr {
    /// The description this error was made with.
    pub closed spec fn spec_details(&self) -> Seq<char> {
        self.details@
    }

    pub fn new(msg: &str) -> (r: ImageStoreErr)
        ensures
            r.spec_details() == msg@,
    {
        ImageStoreErr { details: msg.to_owned() }
    }

    pub fn details(&self) -> (r: &String)
        ensures
            r@ == self.spec_details(),
    {
        &self.details
    }
}

/// A catalog of image records over a root directory.
pub struct ImageStore {
    root_dir: String,
    images: Vec<Module>,
}

impl View for ImageStore {
    type V = Seq<ModuleView>;

    closed spec fn view(&self) -> Seq<ModuleView> {
        catalog_of(self.images@)
    }
}

impl ImageStore {
    pub closed spec fn spec_root_dir(&self) -> Seq<char> {
        self.root_dir@
    }

    /// An empty catalog over the given root directory.
    pub fn new(root_dir: String) -> (r: ImageStore)
        ensures
            r@ == Seq::<ModuleView>::empty(),
            r.spec_root_dir() == root_dir@,
    {
        let r = ImageStore { root_dir, images: Vec::new() };
        proof {
            assert(r@ =~= Seq::<ModuleView>::empty());
        }
        r
    }

    /// Append a record; appending always succeeds.
    pub fn add(&mut self, image: Module) -> (r: Result<(), ImageStoreErr>)
        ensures
            r is Ok,
            final(self)@ == old(self)@.push(image@),
            final(self).spec_root_dir() == old(self).spec_root_dir(),
    {
        proof {
            assert(catalog_of(self.images@.push(image)) =~= catalog_of(self.images@).push(
                image@,
            ));
        }
        self.images.push(image);
        Ok(())
    }

    /// A copy of the first record with the given id, if any.
    pub fn get(&self, key: String) -> (r: Option<Module>)
        ensures
            match r {
                Some(m) => exists|i: int| #[trigger] module_found_at(self@, key@, i)
                    && m@ == self@[i],
                None => !has_module(self@, key@),
            },
    {
        match find_module(&self.images, &key) {
            Some(i) => {
                let m = self.images[i].clone();
                proof {
                    assert(module_found_at(self@, key@, i as int) && m@ == self@[i as int]);
                }
                Some(m)
            },
            None => None,
        }
    }

    /// A snapshot copy of the whole catalog.
    pub fn list(&self) -> (r: Vec<Module>)
        ensures
            catalog_of(r@) == self@,
    {
        let n = self.images.len();
        let mut out: Vec<Module> = Vec::new();
        let mut i: usize = 0;
        while i < n
            invariant
                n == self.images@.len(),
                0 <= i <= n,
                out@.len() == i,
                forall|j: int| 0 <= j < i ==> out@[j]@ == catalog_of(self.images@)[j],
            decreases n - i,
        {
            out.push(self.images[i].clone());
            i = i + 1;
        }
        proof {
            assert(catalog_of(out@) =~= catalog_of(self.images@));
        }
        out
    }

    /// Remove the first record with the given id; fail when no record has it.
    pub fn remove(&mut self, key: String) -> (r: Result<Module, ImageStoreErr>)
        ensures
            final(self).spec_root_dir() == old(self).spec_root_dir(),
            match r {
                Ok(m) => exists|i: int|
                    #[trigger] module_found_at(old(self)@, key@, i) && m@ == old(self)@[i]
                        && final(self)@ == old(self)@.remove(i),
                Err(_) => final(self)@ == old(self)@ && !has_module(old(self)@, key@),
            },
    {
        match find_module(&self.images, &key) {
            Some(i) => {
                proof {
                    assert(catalog_of(self.images@.remove(i as int)) =~= catalog_of(
                        self.images@,
                    ).remove(i as int));
                }
                let m = self.images.remove(i);
                proof {
                    assert(module_found_at(old(self)@, key@, i as int));
                    assert(m@ == old(self)@[i as int]);
                    assert(self@ == old(self)@.remove(i as int));
                }
                Ok(m)
            },
            None => {
                let mut msg = String::from_str("key ");
                msg.append(key.as_str());
                msg.append(" not found");
                Err(ImageStoreErr { details: msg })
            },
        }
    }

    /// Bytes of all records together.
    pub fn used_bytes(&self) -> (r: u64)
        requires
            sum_sizes(self@) <= u64::MAX,
        ensures
            r == sum_sizes(self@),
    {
        used_bytes_of(&self.images)
    }

    /// The number of records.
    pub fn used_inodes(&self) -> (r: u64)
        ensures
            r == self@.len(),
    {
        used_inodes_of(&self.images)
    }

    /// The store's root directory.
    pub fn root_dir(&self) -> (r: &String)
        ensures
            r@ == self.spec_root_dir(),
    {
        &self.root_dir
    }

    /// `<root>/<registry>/<repository>/<tag>`.
    pub fn pull_path(&self, image_ref: ImageReference) -> (p: String)
        ensures
            p@ == self.spec_root_dir() + "/"@ + image_ref.registry@ + "/"@ + image_ref.repo@
                + "/"@ + image_ref.tag@,
    {
        let mut p = self.root_dir.clone();
        p.append("/");
        p.append(image_ref.registry);
        p.append("/");
        p.append(image_ref.repo);
        p.append("/");
        p.append(image_ref.tag);
        p
    }

    /// The artifact file inside the pull directory.
    pub fn pull_file_path(&self, image_ref: ImageReference) -> (p: String)
        ensures
            p@ == self.spec_root_dir() + "/"@ + image_ref.registry@ + "/"@ + image_ref.repo@
                + "/"@ + image_ref.tag@ + "/module.wasm"@,
    {
        let mut p = self.pull_path(image_ref);
        p.append("/module.wasm");
        p
    }
}

} // verus!
