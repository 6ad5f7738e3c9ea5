//! Building and mounting composite filesystem images.
//!
//! The library holds the decisions of an image build: how a source path becomes
//! a path inside the image and which ancestor directories must be added first,
//! how an object's metadata record is formed, how a file's bytes are streamed in
//! fixed-size chunks, and how image and volume sessions move between their
//! states. The calls into the operating system and the image engine are made by
//! the caller, who hands the outcomes back as plain values.
pub mod error;
pub mod image;
pub mod metadata;
pub mod object;
pub mod path;
pub mod privilege;
pub mod stream;
pub mod text;
pub mod volume;

pub use error::CimError;
pub use image::{Image, ImageState, MountPointBinding};
pub use metadata::{FileBasicInfo, FileMetadata, SecurityQuery};
pub use object::{AncestorProbe, Object, SourceProbe};
pub use stream::{CopyAction, StreamCopy};
