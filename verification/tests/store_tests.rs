use wok::cri::{ErrorCode, ImageSpec, ImageStatusRequest, ListImagesRequest, PullImageRequest,
    RemoveImageRequest, ImageFsInfoRequest};
use wok::image::CriImageService;
use wok::oci::{ImageStore, ImageStoreErr};
use wok::reference::{ImageReference, Reference};
use wok::store::{Module, ModuleStore, ModuleStoreError};

fn module(id: &str, size: u64) -> Module {
    Module {
        id: id.to_owned(),
        repo_digests: vec![],
        repo_tags: vec![],
        size,
        uid: None,
        username: "".to_owned(),
    }
}

#[test]
fn test_module_store_used_bytes() {
    let mut s = ModuleStore::new("/".to_owned());
    assert_eq!(0, s.used_bytes());

    s.add(module("1", 1));
    assert_eq!(1, s.used_bytes());

    s.add(module("2", 2));
    assert_eq!(3, s.used_bytes());

    s.remove("1".to_owned()).expect("could not remove module");
    assert_eq!(2, s.used_bytes());
}

#[test]
fn module_store_counts_inodes() {
    let mut s = ModuleStore::new("/tmp".to_owned());
    assert_eq!(0, s.used_inodes());
    s.add(module("a/b:c", 10));
    s.add(module("d/e:f", 20));
    assert_eq!(2, s.used_inodes());
    assert_eq!(30, s.used_bytes());
    s.remove("d/e:f".to_owned()).unwrap();
    assert_eq!(1, s.used_inodes());
    assert_eq!(10, s.used_bytes());
}

#[test]
fn module_store_remove_unknown_fails() {
    let mut s = ModuleStore::new("/tmp".to_owned());
    let err = s.remove("nope".to_owned()).unwrap_err();
    assert_eq!(err, ModuleStoreError::NotFound);
    assert_eq!(err.description(), "module not found");
}

#[test]
fn module_store_paths() {
    let s = ModuleStore::new("/tmp".to_owned());
    let r = Reference::parse("webassembly.azurecr.io/hello:v1".to_owned()).unwrap();
    assert_eq!(s.pull_path(&r), "/tmp/webassembly.azurecr.io/hello/v1");
    assert_eq!(s.pull_file_path(&r), "/tmp/webassembly.azurecr.io/hello/v1/module.wasm");
    assert_eq!(s.root_dir(), "/tmp");
}

#[test]
fn module_store_records_pulls() {
    let mut s = ModuleStore::new("/tmp".to_owned());
    let r = Reference::parse("foo/bar:baz".to_owned()).unwrap();
    s.record_pull(&r, 123);
    let listed = s.list();
    assert_eq!(listed.len(), 1);
    assert_eq!(listed[0].id, "foo/bar:baz");
    assert_eq!(listed[0].size, 123);
    assert!(listed[0].repo_digests.is_empty());
    assert!(listed[0].uid.is_none());
    let got = s.get(&"foo/bar:baz".to_owned()).unwrap();
    assert_eq!(got.size, 123);
}

#[test]
fn image_store_add_get_list_remove() {
    let mut s = ImageStore::new("/tmp".to_owned());
    s.add(module("a/b:c", 7)).expect("add never fails");
    s.add(module("d/e:f", 9)).expect("add never fails");
    assert_eq!(s.list().len(), 2);
    assert_eq!(s.get("a/b:c".to_owned()).unwrap().size, 7);
    assert!(s.get("zzz".to_owned()).is_none());
    assert_eq!(s.used_bytes(), 16);
    assert_eq!(s.used_inodes(), 2);

    let removed = s.remove("a/b:c".to_owned()).unwrap();
    assert_eq!(removed.size, 7);
    assert_eq!(s.used_inodes(), 1);
    let err = s.remove("a/b:c".to_owned()).unwrap_err();
    assert_eq!(err.details(), "key a/b:c not found");
}

#[test]
fn image_store_err_keeps_message() {
    let e = ImageStoreErr::new("boom");
    assert_eq!(e.details(), "boom");
}

#[test]
fn image_store_paths() {
    let s = ImageStore::new("/tmp".to_owned());
    let whole = "foo/bar:baz".to_owned();
    let image_ref = ImageReference::parse(&whole).unwrap();
    assert_eq!(s.pull_path(image_ref), "/tmp/foo/bar/baz");
    assert_eq!(s.pull_file_path(image_ref), "/tmp/foo/bar/baz/module.wasm");
}

#[test]
fn test_image_status() {
    let service = CriImageService::new("".to_owned());
    let req = ImageStatusRequest {
        image: Some(ImageSpec { image: "foo/bar:baz".to_owned() }),
        verbose: false,
    };
    let response = service.image_status(req);
    assert!(response.unwrap().image.is_none());
}

#[test]
fn image_status_needs_an_image() {
    let service = CriImageService::new("".to_owned());
    let err = service.image_status(ImageStatusRequest { image: None, verbose: false });
    assert_eq!(err.unwrap_err(), ErrorCode::InvalidArgument);
}

#[test]
fn image_service_pull_and_report() {
    let mut service = CriImageService::new("/tmp".to_owned());
    let req = PullImageRequest {
        image: Some(ImageSpec { image: "webassembly.azurecr.io/hello:v1".to_owned() }),
    };
    let reference = service.prepare_pull(&req).expect("reference parses");
    assert_eq!(
        service.module_store().pull_file_path(&reference),
        "/tmp/webassembly.azurecr.io/hello/v1/module.wasm"
    );
    let resp = service.complete_pull(&reference, 42);
    assert_eq!(resp.image_ref, "webassembly.azurecr.io/hello:v1");

    let listed = service.list_images(ListImagesRequest {});
    assert_eq!(listed.images.len(), 1);
    assert_eq!(listed.images[0].size, 42);

    let info = service.image_fs_info(ImageFsInfoRequest {});
    assert_eq!(info.image_filesystems.len(), 1);
    let fs = &info.image_filesystems[0];
    assert_eq!(fs.fs_id.as_ref().unwrap().mountpoint, "/tmp");
    assert_eq!(fs.used_bytes.as_ref().unwrap().value, 42);
    assert_eq!(fs.inodes_used.as_ref().unwrap().value, 1);
}

#[test]
fn pull_rejects_malformed_references() {
    let service = CriImageService::new("/tmp".to_owned());
    let req = PullImageRequest { image: Some(ImageSpec { image: "nonsense".to_owned() }) };
    assert_eq!(service.prepare_pull(&req).unwrap_err(), ErrorCode::InvalidArgument);
    let req = PullImageRequest { image: None };
    assert_eq!(service.prepare_pull(&req).unwrap_err(), ErrorCode::InvalidArgument);
}

#[test]
fn remove_image_is_unimplemented() {
    let service = CriImageService::new("/tmp".to_owned());
    let err = service.remove_image(RemoveImageRequest { image: None }).unwrap_err();
    assert_eq!(err, ErrorCode::Unimplemented);
}

#[test]
fn image_status_finds_pulled_module() {
    let mut service = CriImageService::new("/tmp".to_owned());
    let req = PullImageRequest { image: Some(ImageSpec { image: "foo/bar:baz".to_owned() }) };
    let reference = service.prepare_pull(&req).unwrap();
    service.complete_pull(&reference, 5);
    let status = service
        .image_status(ImageStatusRequest {
            image: Some(ImageSpec { image: "foo/bar:baz".to_owned() }),
            verbose: false,
        })
        .unwrap();
    assert_eq!(status.image.unwrap().id, "foo/bar:baz");
}

#[test]
fn used_bytes_holds_the_largest_entry() {
    let mut s = ModuleStore::new("/".to_owned());
    s.add(module("big", u64::MAX));
    assert_eq!(s.used_bytes(), u64::MAX);
    assert_eq!(s.used_inodes(), 1);
}
