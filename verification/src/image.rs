//! The image service: a thin face over the module store. Listing, status
//! and filesystem reports read the catalog; pulling parses the reference
//! here, while the fetch itself and the file measurement are the
//! embedding's work, recorded back into the store when done.
use vstd::prelude::*;

use crate::cri::{
    ErrorCode, FilesystemIdentifier, FilesystemUsage, ImageFsInfoRequest, ImageFsInfoResponse,
    ImageStatusRequest, ImageStatusResponse, ListImagesRequest, ListImagesResponse,
    PullImageRequest, PullImageResponse, RemoveImageRequest, RemoveImageResponse, UInt64Value,
};
use crate::foreign::utc_now_nanos;
use crate::reference::{valid_reference, Reference};
use crate::store::{
    catalog_of, has_module, module_found_at, sum_sizes, ModuleStore, ModuleView,
};
use crate::strmap::StringMap;

verus! {

/// The CRI image service over its module store.
pub struct CriImageService {
    module_store: ModuleStore,
}

impl CriImageService {
    pub closed spec fn spec_store(&self) -> Seq<ModuleView> {
        self.module_store@
    }

    pub closed spec fn spec_root_dir(&self) -> Seq<char> {
        self.module_store.spec_root_dir()
    }

    /// A service over an empty catalog; the root directory on disk is the
    /// embedding's to make.
    pub fn new(root_dir: String) -> (r: CriImageService)
        ensures
            r.spec_store() == Seq::<ModuleView>::empty(),
            r.spec_root_dir() == root_dir@,
    {
        CriImageService { module_store: ModuleStore::new(root_dir) }
    }

    /// The store itself, for resolving paths.
    pub fn module_store(&self) -> (r: &ModuleStore)
        ensures
            r@ == self.spec_store(),
            r.spec_root_dir() == self.spec_root_dir(),
    {
        &self.module_store
    }

    /// The whole catalog.
    pub fn list_images(&self, _req: ListImagesRequest) -> (r: ListImagesResponse)
        ensures
            catalog_of(r.images@) == self.spec_store(),
    {
        ListImagesResponse { images: self.module_store.list() }
    }

    /// The catalog entry named by the request, or nothing; an unknown image
    /// is not an error here.
    pub fn image_status(&self, req: ImageStatusRequest) -> (r: Result<
        ImageStatusResponse,
        ErrorCode,
    >)
        ensures
            match r {
                Ok(resp) => {
                    &&& req.image is Some
                    &&& match resp.image {
                        Some(m) => exists|i: int| #[trigger] module_found_at(
                            self.spec_store(),
                            req.image.unwrap().image@,
                            i,
                        ) && m@ == self.spec_store()[i],
                        None => !has_module(self.spec_store(), req.image.unwrap().image@),
                    }
                    &&& resp.info@ == Map::<Seq<char>, Seq<char>>::empty()
                    &&& resp.info.wf()
                },
                Err(e) => e == ErrorCode::InvalidArgument && req.image is None,
            },
    {
        let spec = match req.image {
            Some(s) => s,
            None => {
                return Err(ErrorCode::InvalidArgument);
            },
        };
        let image = self.module_store.get(&spec.image);
        proof {
            if image is Some {
                let m = image.unwrap();
                let w = choose|i: int|
                    #[trigger] module_found_at(self.spec_store(), spec.image@, i) && m@
                        == self.spec_store()[i];
                assert(module_found_at(self.spec_store(), spec.image@, w) && m@
                    == self.spec_store()[w]);
            }
        }
        Ok(ImageStatusResponse { image, info: StringMap::new() })
    }

    /// Read a pull request: the reference the embedding must fetch. A
    /// request without an image, or with one that does not parse, is
    /// refused.
    pub fn prepare_pull(&self, req: &PullImageRequest) -> (r: Result<Reference, ErrorCode>)
        ensures
            match r {
                Ok(rf) => {
                    &&& req.image is Some
                    &&& rf.wf()
                    &&& rf@ == req.image.unwrap().image@
                    &&& valid_reference(rf@)
                },
                Err(e) => e == ErrorCode::InvalidArgument && (req.image is None
                    || !valid_reference(req.image.unwrap().image@)),
            },
    {
        let spec = match &req.image {
            Some(s) => s,
            None => {
                return Err(ErrorCode::InvalidArgument);
            },
        };
        match Reference::parse(spec.image.clone()) {
            Ok(rf) => Ok(rf),
            Err(_) => Err(ErrorCode::InvalidArgument),
        }
    }

    /// Record a pull the embedding completed: the artifact is on disk with
    /// `size` bytes. The response names the reference that was pulled.
    pub fn complete_pull(&mut self, reference: &Reference, size: u64) -> (r: PullImageResponse)
        ensures
            final(self).spec_root_dir() == old(self).spec_root_dir(),
            final(self).spec_store().len() == old(self).spec_store().len() + 1,
            final(self).spec_store() == old(self).spec_store().push(final(self).spec_store().last()),
            final(self).spec_store().last().id@ == reference@,
            final(self).spec_store().last().size == size,
            r.image_ref@ == reference@,
    {
        self.module_store.record_pull(reference, size);
        PullImageResponse { image_ref: reference.whole().to_owned() }
    }

    /// One filesystem-usage record: the store's root as mountpoint, and the
    /// catalog's byte and entry totals.
    pub fn image_fs_info(&self, _req: ImageFsInfoRequest) -> (r: ImageFsInfoResponse)
        requires
            sum_sizes(self.spec_store()) <= u64::MAX,
        ensures
            r.image_filesystems@.len() == 1,
            r.image_filesystems@[0].fs_id is Some,
            r.image_filesystems@[0].fs_id.unwrap().mountpoint@ == self.spec_root_dir(),
            r.image_filesystems@[0].used_bytes == Some(UInt64Value {
                value: sum_sizes(self.spec_store()) as u64,
            }),
            r.image_filesystems@[0].inodes_used == Some(UInt64Value {
                value: self.spec_store().len() as u64,
            }),
    {
        let timestamp = match utc_now_nanos() {
            Some(n) => n,
            None => 0,
        };
        let mut filesystems: Vec<FilesystemUsage> = Vec::new();
        filesystems.push(FilesystemUsage {
            timestamp,
            fs_id: Some(FilesystemIdentifier { mountpoint: self.module_store.root_dir().clone() }),
            used_bytes: Some(UInt64Value { value: self.module_store.used_bytes() }),
            inodes_used: Some(UInt64Value { value: self.module_store.used_inodes() }),
        });
        ImageFsInfoResponse { image_filesystems: filesystems }
    }

    /// Removing images is not offered by this runtime.
    pub fn remove_image(&self, _req: RemoveImageRequest) -> (r: Result<
        RemoveImageResponse,
        ErrorCode,
    >)
        ensures
            r == Err::<RemoveImageResponse, ErrorCode>(ErrorCode::Unimplemented),
    {
        Err(ErrorCode::Unimplemented)
    }
}

} // verus!
