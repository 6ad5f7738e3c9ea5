use cimfs::metadata::{
    capture_metadata, is_directory, is_reparse_point, FILE_ATTRIBUTE_DIRECTORY,
    FILE_ATTRIBUTE_REPARSE_POINT, MAXIMUM_REPARSE_DATA_BUFFER_SIZE,
};
use cimfs::metadata::{ctl_code, FILE_ANY_ACCESS, FILE_DEVICE_FILE_SYSTEM, FSCTL_GET_REPARSE_POINT, METHOD_BUFFERED};
use cimfs::metadata::{reparse_query_error, HRESULT_INSUFFICIENT_BUFFER, HRESULT_MORE_DATA};
use cimfs::privilege::previously_enabled;
use cimfs::stream::{CopyAction, StreamCopy, COPY_CHUNK_SIZE};
use cimfs::{CimError, FileBasicInfo, SecurityQuery};

fn info(attributes: u32) -> FileBasicInfo {
    FileBasicInfo {
        attributes,
        creation_time: 11,
        last_write_time: 22,
        change_time: 33,
        last_access_time: 44,
    }
}

#[test]
fn attribute_bits() {
    assert!(is_directory(0x10));
    assert!(is_directory(0x10 | 0x20));
    assert!(!is_directory(0x20));
    assert!(is_reparse_point(0x400));
    assert!(!is_reparse_point(0x10));
}

#[test]
fn file_record_keeps_size_and_times() {
    let m = capture_metadata(&info(0x20), 12, &vec![], 0, SecurityQuery::Unavailable, None).unwrap();
    assert_eq!(m.attributes, 0x20);
    assert_eq!(m.creation_time, 11);
    assert_eq!(m.last_write_time, 22);
    assert_eq!(m.change_time, 33);
    assert_eq!(m.last_access_time, 44);
    assert_eq!(m.file_size, 12);
    assert!(m.reparse_data.is_none());
    assert!(m.security_descriptor.is_none());
    assert!(m.extended_attributes.is_none());
}

#[test]
fn directory_record_has_size_zero() {
    let m = capture_metadata(&info(FILE_ATTRIBUTE_DIRECTORY), 4096, &vec![], 0, SecurityQuery::Unavailable, None)
        .unwrap();
    assert_eq!(m.file_size, 0);
}

#[test]
fn reparse_payload_is_what_was_reported() {
    let buf: Vec<u8> = (0..32u8).collect();
    let m = capture_metadata(&info(FILE_ATTRIBUTE_REPARSE_POINT), 0, &buf, 5, SecurityQuery::Unavailable, None)
        .unwrap();
    assert_eq!(m.reparse_data, Some(vec![0, 1, 2, 3, 4]));
}

#[test]
fn reparse_data_ignored_for_plain_file() {
    let buf: Vec<u8> = vec![9; 8];
    let m = capture_metadata(&info(0x20), 3, &buf, 99999, SecurityQuery::Unavailable, None).unwrap();
    assert!(m.reparse_data.is_none());
}

#[test]
fn reparse_overflow_fails_the_object() {
    let buf = vec![0u8; MAXIMUM_REPARSE_DATA_BUFFER_SIZE as usize];
    let r = capture_metadata(
        &info(FILE_ATTRIBUTE_REPARSE_POINT),
        0,
        &buf,
        MAXIMUM_REPARSE_DATA_BUFFER_SIZE as u64 + 1,
        SecurityQuery::Unavailable,
        None,
    );
    assert_eq!(r.unwrap_err(), CimError::BufferOverflow);
    let small = vec![0u8; 4];
    let r = capture_metadata(&info(FILE_ATTRIBUTE_REPARSE_POINT), 0, &small, 5, SecurityQuery::Unavailable, None);
    assert_eq!(r.unwrap_err(), CimError::BufferOverflow);
}

#[test]
fn reparse_data_at_the_limit_fits() {
    let buf = vec![7u8; MAXIMUM_REPARSE_DATA_BUFFER_SIZE as usize];
    let m = capture_metadata(
        &info(FILE_ATTRIBUTE_REPARSE_POINT),
        0,
        &buf,
        MAXIMUM_REPARSE_DATA_BUFFER_SIZE as u64,
        SecurityQuery::Unavailable,
        None,
    )
    .unwrap();
    assert_eq!(m.reparse_data.unwrap().len(), 16384);
}

#[test]
fn security_descriptor_outcomes() {
    let r = capture_metadata(&info(0x20), 1, &vec![], 0, SecurityQuery::Invalid, None);
    assert_eq!(r.unwrap_err(), CimError::SecurityQueryFailed);
    let m = capture_metadata(&info(0x20), 1, &vec![], 0, SecurityQuery::Descriptor(vec![1, 2, 3]), Some(vec![8]))
        .unwrap();
    assert_eq!(m.security_descriptor, Some(vec![1, 2, 3]));
    assert_eq!(m.extended_attributes, Some(vec![8]));
}

#[test]
fn file_copy_runs_until_empty_read() {
    let mut c = StreamCopy::new(false);
    assert_eq!(c.next_action(), CopyAction::Read(COPY_CHUNK_SIZE));
    assert_eq!(COPY_CHUNK_SIZE, 65536);
    c.read_done(Ok(12));
    assert_eq!(c.next_action(), CopyAction::Write(12));
    c.write_done(Ok(()));
    assert_eq!(c.next_action(), CopyAction::Read(65536));
    c.read_done(Ok(0));
    assert_eq!(c.next_action(), CopyAction::Write(0));
    c.write_done(Ok(()));
    assert_eq!(c.next_action(), CopyAction::CloseStream);
    c.stream_closed();
    assert_eq!(c.next_action(), CopyAction::Done);
    assert!(c.is_finished());
    assert_eq!(c.outcome(), Ok(12));
    assert_eq!(c.total_written(), 12);
}

#[test]
fn directory_copy_only_closes() {
    let mut c = StreamCopy::new(true);
    assert_eq!(c.next_action(), CopyAction::CloseStream);
    assert_eq!(c.total_written(), 0);
    c.stream_closed();
    assert_eq!(c.next_action(), CopyAction::Done);
    assert_eq!(c.outcome(), Ok(0));
}

#[test]
fn failed_read_closes_and_reports() {
    let mut c = StreamCopy::new(false);
    c.read_done(Ok(65536));
    c.write_done(Ok(()));
    c.read_done(Err(-5));
    assert_eq!(c.next_action(), CopyAction::CloseStream);
    c.stream_closed();
    assert_eq!(c.outcome(), Err(CimError::IoFailed(-5)));
    assert_eq!(c.total_written(), 65536);
}

#[test]
fn failed_write_closes_and_reports() {
    let mut c = StreamCopy::new(false);
    c.read_done(Ok(100));
    c.write_done(Err(-7));
    assert_eq!(c.next_action(), CopyAction::CloseStream);
    c.stream_closed();
    assert!(c.is_finished());
    assert_eq!(c.outcome(), Err(CimError::IoFailed(-7)));
}

#[test]
fn reparse_control_code() {
    assert_eq!(ctl_code(FILE_DEVICE_FILE_SYSTEM, 42, METHOD_BUFFERED, FILE_ANY_ACCESS), 589992);
    assert_eq!(FSCTL_GET_REPARSE_POINT, 589992);
    assert_eq!(ctl_code(1, 2, 3, 1), (1 << 16) | (1 << 14) | (2 << 2) | 3);
}

#[test]
fn privilege_state_read_back() {
    assert!(previously_enabled(16, 16, 1, 0x2));
    assert!(previously_enabled(16, 16, 1, 0x1));
    assert!(!previously_enabled(16, 16, 1, 0x4));
    assert!(!previously_enabled(0, 16, 1, 0x2));
    assert!(!previously_enabled(16, 16, 0, 0x2));
}

#[test]
fn reparse_query_that_does_not_fit_is_overflow() {
    assert_eq!(HRESULT_MORE_DATA, 0x800700EAu32 as i32);
    assert_eq!(HRESULT_INSUFFICIENT_BUFFER, 0x8007007Au32 as i32);
    assert_eq!(reparse_query_error(HRESULT_MORE_DATA), CimError::BufferOverflow);
    assert_eq!(reparse_query_error(HRESULT_INSUFFICIENT_BUFFER), CimError::BufferOverflow);
    assert_eq!(reparse_query_error(-5), CimError::IoFailed(-5));
}
