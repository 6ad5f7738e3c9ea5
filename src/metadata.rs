//! The metadata record of one object, formed from what the source handle
//! reported.
use vstd::prelude::*;
use crate::error::CimError;

verus! {

/// Attribute bit of a directory.
pub const FILE_ATTRIBUTE_DIRECTORY: u32 = 0x10;

/// Attribute bit of a reparse point.
pub const FILE_ATTRIBUTE_REPARSE_POINT: u32 = 0x400;

/// Size of the fixed buffer that reparse data is captured into.
pub const MAXIMUM_REPARSE_DATA_BUFFER_SIZE: u32 = 16384;

/// Attributes and timestamps of an open source object, in 100 ns ticks.
#[derive(Debug, Clone, Copy, PartialEq, Eq, Structural)]
pub struct FileBasicInfo {
    pub attributes: u32,
    pub creation_time: i64,
    pub last_write_time: i64,
    pub change_time: i64,
    pub last_access_time: i64,
}

/// The outcome of the security-descriptor query, which is best-effort.
#[derive(Debug)]
pub enum SecurityQuery {
    /// The descriptor could not be obtained; the record omits it.
    Unavailable,
    /// The query returned a descriptor that cannot be used.
    Invalid,
    /// The descriptor's bytes.
    Descriptor(Vec<u8>),
}

/// What the engine is given when an object is created in the image.
#[derive(Debug)]
pub struct FileMetadata {
    pub attributes: u32,
    pub creation_time: i64,
    pub last_write_time: i64,
    pub change_time: i64,
    pub last_access_time: i64,
    /// Zero for a directory.
    pub file_size: u64,
    /// Present exactly when the object is a reparse point.
    pub reparse_data: Option<Vec<u8>>,
    pub security_descriptor: Option<Vec<u8>>,
    pub extended_attributes: Option<Vec<u8>>,
}

pub open spec fn directory_bit(attributes: u32) -> bool {
    attributes & FILE_ATTRIBUTE_DIRECTORY != 0
}

pub open spec fn reparse_bit(attributes: u32) -> bool {
    attributes & FILE_ATTRIBUTE_REPARSE_POINT != 0
}

/// The attributes mark a directory: its content is not copied.
pub fn is_directory(attributes: u32) -> (r: bool)
    ensures
        r == directory_bit(attributes),
{
    attributes & FILE_ATTRIBUTE_DIRECTORY != 0
}

/// The attributes mark a reparse point: its reparse data is captured.
pub fn is_reparse_point(attributes: u32) -> (r: bool)
    ensures
        r == reparse_bit(attributes),
{
    attributes & FILE_ATTRIBUTE_REPARSE_POINT != 0
}

/// The reparse data reported does not fit the capture buffer.
pub open spec fn reparse_overflows(buffer_len: int, reported: u64) -> bool {
    reported > MAXIMUM_REPARSE_DATA_BUFFER_SIZE || reported > buffer_len
}

/// `m` is the record formed from these query outcomes.
pub open spec fn record_of(
    m: FileMetadata,
    info: &FileBasicInfo,
    file_size: u64,
    reparse_buffer: Seq<u8>,
    reparse_reported: u64,
    security: SecurityQuery,
    extended_attributes: Option<Vec<u8>>,
) -> bool {
    &&& m.attributes == info.attributes
    &&& m.creation_time == info.creation_time
    &&& m.last_write_time == info.last_write_time
    &&& m.change_time == info.change_time
    &&& m.last_access_time == info.last_access_time
    &&& m.file_size == if directory_bit(info.attributes) {
        0
    } else {
        file_size
    }
    &&& reparse_bit(info.attributes) ==> m.reparse_data is Some && m.reparse_data->Some_0@
        == reparse_buffer.take(reparse_reported as int)
    &&& !reparse_bit(info.attributes) ==> m.reparse_data is None
    &&& security is Unavailable ==> m.security_descriptor is None
    &&& security is Descriptor ==> m.security_descriptor == Some(security->Descriptor_0)
    &&& m.extended_attributes == extended_attributes
}

/// Forms the metadata record of an object.
///
/// `file_size` is what the size query returned and is ignored for a
/// directory. `reparse_buffer` holds what the reparse query wrote and
/// `reparse_reported` how many bytes it reported; both are ignored unless the
/// object is a reparse point. Reparse data that overflows the capture buffer
/// fails the object with `BufferOverflow`; an unusable security descriptor with
/// `SecurityQueryFailed`; a descriptor that could not be obtained is omitted.
pub fn capture_metadata(
    info: &FileBasicInfo,
    file_size: u64,
    reparse_buffer: &Vec<u8>,
    reparse_reported: u64,
    security: SecurityQuery,
    extended_attributes: Option<Vec<u8>>,
) -> (r: Result<FileMetadata, CimError>)
    ensures
        reparse_bit(info.attributes) && reparse_overflows(reparse_buffer@.len() as int, reparse_reported)
            ==> r == Err::<FileMetadata, CimError>(CimError::BufferOverflow),
        !(reparse_bit(info.attributes) && reparse_overflows(reparse_buffer@.len() as int, reparse_reported))
            && security is Invalid ==> r == Err::<FileMetadata, CimError>(
            CimError::SecurityQueryFailed,
        ),
        !(reparse_bit(info.attributes) && reparse_overflows(reparse_buffer@.len() as int, reparse_reported))
            && !(security is Invalid) ==> r is Ok && record_of(
            r->Ok_0,
            info,
            file_size,
            reparse_buffer@,
            reparse_reported,
            security,
            extended_attributes,
        ),
{
    let reparse_point = is_reparse_point(info.attributes);
    let mut reparse_data: Option<Vec<u8>> = None;
    if reparse_point {
        if reparse_reported > MAXIMUM_REPARSE_DATA_BUFFER_SIZE as u64 || reparse_reported
            > reparse_buffer.len() as u64 {
            return Err(CimError::BufferOverflow);
        }
        let n = reparse_reported as usize;
        let mut d: Vec<u8> = Vec::new();
        let mut i: usize = 0;
        while i < n
            invariant
                n <= reparse_buffer@.len(),
                i <= n,
                d@ == reparse_buffer@.take(i as int),
            decreases n - i,
        {
            d.push(reparse_buffer[i]);
            i += 1;
            proof {
                assert(d@ =~= reparse_buffer@.take(i as int));
            }
        }
        reparse_data = Some(d);
    }
    let security_descriptor = match security {
        SecurityQuery::Unavailable => None,
        SecurityQuery::Invalid => {
            return Err(CimError::SecurityQueryFailed);
        },
        SecurityQuery::Descriptor(sd) => Some(sd),
    };
    let file_size = if is_directory(info.attributes) {
        0
    } else {
        file_size
    };
    Ok(
        FileMetadata {
            attributes: info.attributes,
            creation_time: info.creation_time,
            last_write_time: info.last_write_time,
            change_time: info.change_time,
            last_access_time: info.last_access_time,
            file_size,
            reparse_data,
            security_descriptor,
            extended_attributes,
        },
    )
}

/// Device type of a file system control code.
pub const FILE_DEVICE_FILE_SYSTEM: u32 = 9;

/// Buffered transfer method of a control code.
pub const METHOD_BUFFERED: u32 = 0;

/// A control code that any caller may issue.
pub const FILE_ANY_ACCESS: u32 = 0;

/// The control code that reads a reparse point's data.
pub const FSCTL_GET_REPARSE_POINT: u32 = (9 << 16) | (42 << 2);

/// A device I/O control code: device type, access, function and method packed
/// into one word.
pub fn ctl_code(device_type: u32, function: u32, method: u32, access: u32) -> (r: u32)
    ensures
        r == (device_type << 16u32) | (access << 14u32) | (function << 2u32) | method,
{
    (device_type << 16u32) | (access << 14u32) | (function << 2u32) | method
}

/// The status of a query whose output did not fit its buffer
/// (`ERROR_MORE_DATA` as an HRESULT).
pub const HRESULT_MORE_DATA: i32 = -2147024662;

/// The status of a query whose buffer was too small
/// (`ERROR_INSUFFICIENT_BUFFER` as an HRESULT).
pub const HRESULT_INSUFFICIENT_BUFFER: i32 = -2147024774;

/// The failure of a reparse-data query, from its status: data that does not
/// fit the capture buffer is `BufferOverflow`, any other failure `IoFailed`.
pub fn reparse_query_error(status: i32) -> (r: CimError)
    ensures
        status == HRESULT_MORE_DATA || status == HRESULT_INSUFFICIENT_BUFFER ==> r
            == CimError::BufferOverflow,
        !(status == HRESULT_MORE_DATA || status == HRESULT_INSUFFICIENT_BUFFER) ==> r
            == CimError::IoFailed(status),
{
    if status == HRESULT_MORE_DATA || status == HRESULT_INSUFFICIENT_BUFFER {
        CimError::BufferOverflow
    } else {
        CimError::IoFailed(status)
    }
}

} // verus!
