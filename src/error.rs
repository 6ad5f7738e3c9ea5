use vstd::prelude::*;

verus! {

/// The ways in which a step of an image build or mount can fail.
///
/// Where an engine or operating-system call was rejected, its status code is
/// kept for diagnostics.
#[derive(Debug, Clone, Copy, PartialEq, Eq, Structural)]
pub enum CimError {
    /// The source path cannot be canonicalized, or names no entry of the image.
    InvalidPath,
    /// A descriptor's relative path was asked for before resolution.
    Unresolved,
    /// The engine refused to create the image.
    CreateFailed(i32),
    /// The engine refused to commit the image.
    CommitFailed(i32),
    /// The engine refused to mount the image.
    MountFailed(i32),
    /// The local mountpoint could not be bound to the volume.
    MountPointFailed(i32),
    /// The engine refused to dismount the volume.
    DismountFailed(i32),
    /// The engine refused to create an object in the image.
    AddObjectFailed(i32),
    /// Reading the source or writing the image stream failed.
    IoFailed(i32),
    /// The reparse data does not fit the fixed capture buffer.
    BufferOverflow,
    /// The security-descriptor query returned unusable data.
    SecurityQueryFailed,
    /// No volume identifier is cached on the session.
    NoVolumeCached,
    /// The session holds no open image.
    NotOpen,
    /// A fresh volume identifier could not be generated.
    IdGenerationFailed,
    /// The text does not hold a volume identifier.
    InvalidVolumeId,
}

} // verus!
