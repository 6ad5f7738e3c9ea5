use std::cell::Cell;
use std::rc::Rc;

use cimfs::image::{add_object_result, commit_result, dismount_result, mount_point_result, volume_path};
use cimfs::metadata::{capture_metadata, is_directory, FILE_ATTRIBUTE_REPARSE_POINT};
use cimfs::object::merge_ancestors;
use cimfs::stream::{CopyAction, StreamCopy};
use cimfs::volume::{parse_volume_id, volume_id_text};
use cimfs::{AncestorProbe, CimError, FileBasicInfo, Image, ImageState, Object, SecurityQuery, SourceProbe};

const ID: u128 = 0x04522dcd_f383_4f1c_aea6_af8f93e020d5;

/// Stands for an engine handle: counts how often it is released.
struct Handle {
    released: Rc<Cell<u32>>,
}

impl Drop for Handle {
    fn drop(&mut self) {
        self.released.set(self.released.get() + 1);
    }
}

fn handle(counter: &Rc<Cell<u32>>) -> Handle {
    Handle { released: counter.clone() }
}

#[test]
fn new_image_is_unopened() {
    let img: Image<Handle> = Image::new("C:\\images", "img.cim");
    assert_eq!(img.state_now(), ImageState::Unopened);
    assert_eq!(img.name(), "img.cim");
    assert_eq!(img.root_folder(), "C:\\images");
    assert_eq!(img.volume(), None);
    assert_eq!(img.handle().err(), Some(CimError::NotOpen));
}

#[test]
fn failed_create_leaves_session_unopened() {
    let mut img: Image<Handle> = Image::new(".", "img.cim");
    assert_eq!(img.create(Err(-2147024816)), Err(CimError::CreateFailed(-2147024816)));
    assert_eq!(img.state_now(), ImageState::Unopened);
}

#[test]
fn commit_moves_handle_out_once() {
    let released = Rc::new(Cell::new(0));
    let mut img: Image<Handle> = Image::new(".", "img.cim");
    img.create(Ok(handle(&released))).unwrap();
    assert_eq!(img.state_now(), ImageState::Open);
    assert!(img.handle().is_ok());
    let h = img.begin_commit().ok().unwrap();
    assert_eq!(img.state_now(), ImageState::Committed);
    assert_eq!(commit_result(0), Ok(()));
    drop(h);
    assert_eq!(released.get(), 1);
    assert_eq!(img.begin_commit().err(), Some(CimError::NotOpen));
    drop(img);
    assert_eq!(released.get(), 1);
}

#[test]
fn failed_commit_still_releases_and_allows_new_create() {
    let released = Rc::new(Cell::new(0));
    let mut img: Image<Handle> = Image::new(".", "img.cim");
    img.create(Ok(handle(&released))).unwrap();
    let h = img.begin_commit().ok().unwrap();
    assert_eq!(commit_result(-2147467259), Err(CimError::CommitFailed(-2147467259)));
    drop(h);
    assert_eq!(released.get(), 1);
    let mut again: Image<Handle> = Image::new(".", "img.cim");
    assert_eq!(again.create(Ok(handle(&released))), Ok(()));
    assert_eq!(again.state_now(), ImageState::Open);
}

#[test]
fn abandoned_open_session_releases_handle() {
    let released = Rc::new(Cell::new(0));
    {
        let mut img: Image<Handle> = Image::new(".", "img.cim");
        img.create(Ok(handle(&released))).unwrap();
        assert!(img.handle().is_ok());
    }
    assert_eq!(released.get(), 1);
}

#[test]
fn engine_statuses_map_to_errors() {
    assert_eq!(add_object_result(0), Ok(()));
    assert_eq!(add_object_result(-1), Err(CimError::AddObjectFailed(-1)));
    assert_eq!(mount_point_result(1), Ok(()));
    assert_eq!(mount_point_result(-3), Err(CimError::MountPointFailed(-3)));
    assert_eq!(dismount_result(0), Ok(()));
    assert_eq!(dismount_result(-4), Err(CimError::DismountFailed(-4)));
}

#[test]
fn explicit_id_is_used() {
    let mut img: Image<Handle> = Image::new(".", "img.cim").with_volume(7);
    let id = img.choose_volume_id(Some("04522dcd-f383-4f1c-aea6-af8f93e020d5"), Some(9));
    assert_eq!(id, Ok(ID));
    assert_eq!(img.mount_result(ID, 0), Ok(ID));
    assert_eq!(img.volume(), Some(ID));
}

#[test]
fn cached_id_is_reused_then_generated() {
    let mut img: Image<Handle> = Image::new(".", "img.cim").with_volume(7);
    assert_eq!(img.choose_volume_id(None, Some(9)), Ok(7));
    assert_eq!(img.volume(), None);
    assert_eq!(img.choose_volume_id(None, Some(9)), Ok(9));
    assert_eq!(img.choose_volume_id(None, None), Err(CimError::IdGenerationFailed));
}

#[test]
fn bad_explicit_id_is_rejected() {
    let mut img: Image<Handle> = Image::new(".", "img.cim");
    assert_eq!(img.choose_volume_id(Some("not-a-guid"), Some(9)), Err(CimError::InvalidVolumeId));
}

#[test]
fn rejected_explicit_id_keeps_cached_id() {
    let mut img: Image<Handle> = Image::new(".", "img.cim").with_volume(ID);
    assert_eq!(img.choose_volume_id(Some("Volume{nope}"), None), Err(CimError::InvalidVolumeId));
    assert_eq!(img.volume(), Some(ID));
    assert!(img.mount_volume("C:\\mnt").is_ok());
    assert_eq!(img.choose_volume_id(Some("{00000000-0000-0000-0000-000000000007}"), None), Ok(7));
    assert_eq!(img.volume(), Some(ID));
    assert_eq!(img.mount_result(7, -1), Err(CimError::MountFailed(-1)));
    assert_eq!(img.volume(), Some(ID));
}

#[test]
fn failed_mount_caches_nothing() {
    let mut img: Image<Handle> = Image::new(".", "img.cim");
    let id = img.choose_volume_id(None, Some(ID)).unwrap();
    assert_eq!(img.mount_result(id, -5), Err(CimError::MountFailed(-5)));
    assert_eq!(img.volume(), None);
    assert_eq!(img.mount_volume("C:\\mnt").err(), Some(CimError::NoVolumeCached));
}

#[test]
fn mountpoint_binding_arguments() {
    let img: Image<Handle> = Image::new(".", "img.cim").with_volume(ID);
    let b = img.mount_volume("C:\\mnt").unwrap();
    assert_eq!(b.mountpoint, "C:\\mnt\\");
    assert_eq!(b.volume_path, "\\\\?\\Volume{04522DCD-F383-4F1C-AEA6-AF8F93E020D5}\\");
    let b = img.mount_volume("C:\\mnt\\").unwrap();
    assert_eq!(b.mountpoint, "C:\\mnt\\");
}

#[test]
fn volume_text_and_path() {
    assert_eq!(volume_id_text(ID), "04522DCD-F383-4F1C-AEA6-AF8F93E020D5");
    assert_eq!(volume_id_text(0), "00000000-0000-0000-0000-000000000000");
    assert_eq!(volume_path(ID), "\\\\?\\Volume{04522DCD-F383-4F1C-AEA6-AF8F93E020D5}");
}

#[test]
fn dismount_accepts_three_forms() {
    let forms = [
        "Volume{04522dcd-f383-4f1c-aea6-af8f93e020d5}",
        "{04522dcd-f383-4f1c-aea6-af8f93e020d5}",
        "04522dcd-f383-4f1c-aea6-af8f93e020d5",
        "04522DCD-F383-4F1C-AEA6-AF8F93E020D5",
    ];
    for f in forms {
        assert_eq!(parse_volume_id(f), Ok(ID));
    }
}

#[test]
fn malformed_volume_names_are_rejected() {
    for f in [
        "",
        "Volume{}",
        "04522dcd-f383-4f1c-aea6-af8f93e020d",
        "04522dcd+f383-4f1c-aea6-af8f93e020d5",
        "04522dcg-f383-4f1c-aea6-af8f93e020d5",
        "[04522dcd-f383-4f1c-aea6-af8f93e020d5]",
        "04522dcd-f383-4f1c-aea6-af8f93e020d5é",
    ] {
        assert_eq!(parse_volume_id(f), Err(CimError::InvalidVolumeId));
    }
}

#[test]
fn end_to_end_build_mount_dismount() {
    let released = Rc::new(Cell::new(0));
    let all_dirs = SourceProbe {
        source_exists: true,
        ancestors: vec![AncestorProbe { is_file: false, exists: true }; 2],
    };
    let mut leaf = Object::new("a/b/file.txt");
    let ancestors = leaf.resolve_relative_path(true, &all_dirs).unwrap();
    let mut objects: Vec<Object> = Vec::new();
    merge_ancestors(&mut objects, &ancestors);
    let order: Vec<String> = objects.iter().map(|o| o.get_relative_path().unwrap().clone()).collect();
    assert_eq!(order, vec!["a", "a\\b"]);

    let mut img: Image<Handle> = Image::new("root", "img");
    img.create(Ok(handle(&released))).unwrap();
    let mut added: Vec<String> = Vec::new();
    let dir = FileBasicInfo { attributes: 0x10, creation_time: 1, last_write_time: 2, change_time: 3, last_access_time: 4 };
    let file = FileBasicInfo { attributes: 0x20, ..dir };
    for (o, info, size) in [(&objects[0], dir, 0u64), (&objects[1], dir, 0), (&leaf, file, 12)] {
        assert!(img.handle().is_ok());
        let m = capture_metadata(&info, size, &vec![], 0, SecurityQuery::Unavailable, None).unwrap();
        assert_eq!(add_object_result(0), Ok(()));
        let mut copy = StreamCopy::new(is_directory(m.attributes));
        let mut left = size as u32;
        loop {
            match copy.next_action() {
                CopyAction::Read(_) => {
                    copy.read_done(Ok(left));
                    left = 0;
                }
                CopyAction::Write(_) => copy.write_done(Ok(())),
                CopyAction::CloseStream => copy.stream_closed(),
                CopyAction::Done => break,
            }
        }
        assert_eq!(copy.outcome(), Ok(m.file_size));
        added.push(o.get_relative_path().unwrap().clone());
    }
    assert_eq!(added, vec!["a", "a\\b", "a\\b\\file.txt"]);
    let h = img.begin_commit().ok().unwrap();
    assert_eq!(commit_result(0), Ok(()));
    drop(h);
    assert_eq!(released.get(), 1);

    let mut vol: Image<Handle> = Image::new("root", "img");
    let id = vol.choose_volume_id(None, Some(ID)).unwrap();
    assert_eq!(vol.mount_result(id, 0), Ok(ID));
    let path = volume_path(id);
    assert_eq!(path, "\\\\?\\Volume{04522DCD-F383-4F1C-AEA6-AF8F93E020D5}");
    let guid = &path["\\\\?\\".len()..];
    assert_eq!(parse_volume_id(guid), Ok(ID));
    assert_eq!(dismount_result(0), Ok(()));
}

#[test]
fn missing_source_fails_resolution_with_invalid_path() {
    let mut o = Object::new("a/b/file.txt");
    let gone = SourceProbe { source_exists: false, ancestors: vec![] };
    assert_eq!(o.resolve_relative_path(false, &gone).unwrap_err(), CimError::InvalidPath);
    assert_eq!(o.get_relative_path().unwrap_err(), CimError::Unresolved);
}

#[test]
fn reparse_overflow_aborts_only_that_object() {
    let released = Rc::new(Cell::new(0));
    let mut img: Image<Handle> = Image::new("root", "img");
    img.create(Ok(handle(&released))).unwrap();
    let ok = capture_metadata(
        &FileBasicInfo { attributes: 0x20, creation_time: 0, last_write_time: 0, change_time: 0, last_access_time: 0 },
        3,
        &vec![],
        0,
        SecurityQuery::Unavailable,
        None,
    );
    assert!(ok.is_ok());
    let buf = vec![0u8; 16384];
    let bad = capture_metadata(
        &FileBasicInfo {
            attributes: FILE_ATTRIBUTE_REPARSE_POINT,
            creation_time: 0,
            last_write_time: 0,
            change_time: 0,
            last_access_time: 0,
        },
        0,
        &buf,
        20000,
        SecurityQuery::Unavailable,
        None,
    );
    assert_eq!(bad.unwrap_err(), CimError::BufferOverflow);
    assert_eq!(img.state_now(), ImageState::Open);
    assert!(img.handle().is_ok());
    assert_eq!(released.get(), 0);
    let h = img.begin_commit().ok().unwrap();
    assert_eq!(commit_result(0), Ok(()));
    drop(h);
    assert_eq!(released.get(), 1);
}
