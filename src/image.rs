//! The sessions of an image: building it (create, add objects, commit) and
//! mounting it as a volume.
//!
//! The engine's image handle is of a type `H` that the caller chooses; it is
//! released when dropped. A session owns it from a successful create until
//! commit moves it out, so it is released exactly once whatever happens in
//! between, and an abandoned session releases it without committing.
use vstd::prelude::*;
use crate::error::CimError;
use crate::text::{chars_of, string_from_chars};
use crate::volume::{guid_text_of, parse_volume_id, volume_id_of, volume_id_text};

verus! {

/// An engine status: negative values are failures.
pub open spec fn succeeded(status: i32) -> bool {
    status >= 0
}

/// Where an image session stands.
#[derive(Debug, Clone, Copy, PartialEq, Eq, Structural)]
pub enum ImageState {
    Unopened,
    Open,
    Committed,
}

/// An image under a root folder, with its build session and its cached volume
/// identifier.
pub struct Image<H> {
    name: String,
    root_folder: String,
    image_handle: Option<H>,
    committed: bool,
    volume: Option<u128>,
}

/// The arguments of binding a local mountpoint to a mounted volume.
#[derive(Debug)]
pub struct MountPointBinding {
    /// The local path, ending in `\`.
    pub mountpoint: String,
    /// The volume's device path, `\\?\Volume{GUID}\`.
    pub volume_path: String,
}

/// `\\?\Volume{` followed by the identifier's text and `}`.
pub open spec fn volume_path_of(id: u128) -> Seq<char> {
    seq!['\\', '\\', '?', '\\', 'V', 'o', 'l', 'u', 'm', 'e', '{'] + guid_text_of(id) + seq!['}']
}

/// The local path of a mountpoint, with a `\` added unless it ends in one.
pub open spec fn mountpoint_of(p: Seq<char>) -> Seq<char> {
    if p.len() > 0 && p.last() == '\\' {
        p
    } else {
        p.push('\\')
    }
}

/// The device path of the volume mounted under `id`.
pub fn volume_path(id: u128) -> (r: String)
    ensures
        r@ == volume_path_of(id),
{
    let text = chars_of(volume_id_text(id).as_str());
    let mut v: Vec<char> = vec!['\\', '\\', '?', '\\', 'V', 'o', 'l', 'u', 'm', 'e', '{'];
    let mut i: usize = 0;
    let ghost head = v@;
    while i < text.len()
        invariant
            i <= text@.len(),
            text@ == guid_text_of(id),
            v@ == head + text@.take(i as int),
        decreases text@.len() - i,
    {
        v.push(text[i]);
        i += 1;
        proof {
            assert(v@ =~= head + text@.take(i as int));
        }
    }
    v.push('}');
    proof {
        assert(text@.take(text@.len() as int) =~= text@);
        assert(v@ =~= volume_path_of(id));
    }
    string_from_chars(v.as_slice())
}

/// What a commit came to, from the engine's status.
pub fn commit_result(status: i32) -> (r: Result<(), CimError>)
    ensures
        succeeded(status) ==> r is Ok,
        !succeeded(status) ==> r == Err::<(), CimError>(CimError::CommitFailed(status)),
{
    if status >= 0 {
        Ok(())
    } else {
        Err(CimError::CommitFailed(status))
    }
}

/// What creating an object in the image came to, from the engine's status.
pub fn add_object_result(status: i32) -> (r: Result<(), CimError>)
    ensures
        succeeded(status) ==> r is Ok,
        !succeeded(status) ==> r == Err::<(), CimError>(CimError::AddObjectFailed(status)),
{
    if status >= 0 {
        Ok(())
    } else {
        Err(CimError::AddObjectFailed(status))
    }
}

/// What binding a mountpoint came to, from the status of the call.
pub fn mount_point_result(status: i32) -> (r: Result<(), CimError>)
    ensures
        succeeded(status) ==> r is Ok,
        !succeeded(status) ==> r == Err::<(), CimError>(CimError::MountPointFailed(status)),
{
    if status >= 0 {
        Ok(())
    } else {
        Err(CimError::MountPointFailed(status))
    }
}

/// What a dismount came to, from the engine's status.
pub fn dismount_result(status: i32) -> (r: Result<(), CimError>)
    ensures
        succeeded(status) ==> r is Ok,
        !succeeded(status) ==> r == Err::<(), CimError>(CimError::DismountFailed(status)),
{
    if status >= 0 {
        Ok(())
    } else {
        Err(CimError::DismountFailed(status))
    }
}

impl<H> Image<H> {
    pub closed spec fn spec_name(&self) -> Seq<char> {
        self.name@
    }

    pub closed spec fn spec_root_folder(&self) -> Seq<char> {
        self.root_folder@
    }

    pub closed spec fn spec_handle(&self) -> Option<H> {
        self.image_handle
    }

    pub closed spec fn spec_volume(&self) -> Option<u128> {
        self.volume
    }

    pub closed spec fn state(&self) -> ImageState {
        if self.image_handle is Some {
            ImageState::Open
        } else if self.committed {
            ImageState::Committed
        } else {
            ImageState::Unopened
        }
    }

    /// An image named `name` under `root_folder`, not yet created.
    pub fn new(root_folder: &str, name: &str) -> (r: Image<H>)
        ensures
            r.spec_name() == name@,
            r.spec_root_folder() == root_folder@,
            r.state() == ImageState::Unopened,
            r.spec_handle() is None,
            r.spec_volume() is None,
    {
        Image {
            name: name.to_owned(),
            root_folder: root_folder.to_owned(),
            image_handle: None,
            committed: false,
            volume: None,
        }
    }

    /// The same image, with `volume` as its cached volume identifier.
    pub fn with_volume(self, volume: u128) -> (r: Image<H>)
        ensures
            r.spec_name() == self.spec_name(),
            r.spec_root_folder() == self.spec_root_folder(),
            r.state() == self.state(),
            r.spec_handle() == self.spec_handle(),
            r.spec_volume() == Some(volume),
    {
        let mut s = self;
        s.volume = Some(volume);
        s
    }

    pub fn name(&self) -> (r: &String)
        ensures
            r@ == self.spec_name(),
    {
        &self.name
    }

    pub fn root_folder(&self) -> (r: &String)
        ensures
            r@ == self.spec_root_folder(),
    {
        &self.root_folder
    }

    /// The cached volume identifier.
    pub fn volume(&self) -> (r: Option<u128>)
        ensures
            r == self.spec_volume(),
    {
        self.volume
    }

    /// Where the session stands.
    pub fn state_now(&self) -> (r: ImageState)
        ensures
            r == self.state(),
    {
        match &self.image_handle {
            Some(_) => ImageState::Open,
            None => if self.committed {
                ImageState::Committed
            } else {
                ImageState::Unopened
            },
        }
    }

    /// Takes what the engine's create call returned: the new image's handle,
    /// which opens the session (releasing a handle that it held before), or
    /// the engine's status, which leaves the session as it was.
    pub fn create(&mut self, created: Result<H, i32>) -> (r: Result<(), CimError>)
        ensures
            final(self).spec_name() == old(self).spec_name(),
            final(self).spec_root_folder() == old(self).spec_root_folder(),
            final(self).spec_volume() == old(self).spec_volume(),
            created matches Ok(h) ==> r is Ok && final(self).state() == ImageState::Open
                && final(self).spec_handle() == Some(h),
            created matches Err(code) ==> r == Err::<(), CimError>(CimError::CreateFailed(code))
                && final(self).state() == old(self).state() && final(self).spec_handle() == old(
                self,
            ).spec_handle(),
    {
        match created {
            Ok(h) => {
                self.image_handle = Some(h);
                self.committed = false;
                Ok(())
            },
            Err(code) => Err(CimError::CreateFailed(code)),
        }
    }

    /// The open image's handle, lent for adding an object; it stays with the
    /// session whatever the add comes to.
    pub fn handle(&self) -> (r: Result<&H, CimError>)
        ensures
            self.spec_handle() matches Some(h) ==> r == Ok::<&H, CimError>(&h),
            self.spec_handle() is None ==> r == Err::<&H, CimError>(CimError::NotOpen),
    {
        match &self.image_handle {
            Some(h) => Ok(h),
            None => Err(CimError::NotOpen),
        }
    }

    /// Moves the handle out of an open session for the engine's commit call.
    /// The session is committed from then on, whatever the engine answers,
    /// and a second commit fails with `NotOpen`.
    pub fn begin_commit(&mut self) -> (r: Result<H, CimError>)
        ensures
            final(self).spec_name() == old(self).spec_name(),
            final(self).spec_root_folder() == old(self).spec_root_folder(),
            final(self).spec_volume() == old(self).spec_volume(),
            final(self).spec_handle() is None,
            old(self).spec_handle() matches Some(h) ==> r == Ok::<H, CimError>(h)
                && final(self).state() == ImageState::Committed,
            old(self).spec_handle() is None ==> r == Err::<H, CimError>(CimError::NotOpen)
                && final(self).state() == old(self).state(),
    {
        match self.image_handle.take() {
            Some(h) => {
                self.committed = true;
                Ok(h)
            },
            None => Err(CimError::NotOpen),
        }
    }

    /// The identifier to mount under: `explicit` if given, else the cached
    /// identifier, else `generated`, the outcome of asking the platform for a
    /// fresh one. Without an explicit identifier the cache is emptied, and a
    /// successful mount fills it again; with one, the cache is left as it is,
    /// also when the text is rejected.
    pub fn choose_volume_id(&mut self, explicit: Option<&str>, generated: Option<u128>) -> (r:
        Result<u128, CimError>)
        ensures
            final(self).spec_name() == old(self).spec_name(),
            final(self).spec_root_folder() == old(self).spec_root_folder(),
            final(self).spec_handle() == old(self).spec_handle(),
            final(self).state() == old(self).state(),
            explicit is Some ==> final(self).spec_volume() == old(self).spec_volume(),
            explicit is None ==> final(self).spec_volume() is None,
            explicit matches Some(t) ==> r == match volume_id_of(t@) {
                Some(id) => Ok::<u128, CimError>(id),
                None => Err::<u128, CimError>(CimError::InvalidVolumeId),
            },
            explicit is None && old(self).spec_volume() is Some ==> r == Ok::<u128, CimError>(
                old(self).spec_volume()->Some_0,
            ),
            explicit is None && old(self).spec_volume() is None ==> r == match generated {
                Some(id) => Ok::<u128, CimError>(id),
                None => Err::<u128, CimError>(CimError::IdGenerationFailed),
            },
    {
        match explicit {
            Some(t) => parse_volume_id(t),
            None => match self.volume.take() {
                Some(id) => Ok(id),
                None => match generated {
                    Some(id) => Ok(id),
                    None => Err(CimError::IdGenerationFailed),
                },
            },
        }
    }

    /// Takes the engine's status for mounting under `id`. On success the
    /// identifier is cached for binding a mountpoint; on failure nothing is.
    pub fn mount_result(&mut self, id: u128, status: i32) -> (r: Result<u128, CimError>)
        ensures
            final(self).spec_name() == old(self).spec_name(),
            final(self).spec_root_folder() == old(self).spec_root_folder(),
            final(self).spec_handle() == old(self).spec_handle(),
            final(self).state() == old(self).state(),
            succeeded(status) ==> r == Ok::<u128, CimError>(id) && final(self).spec_volume()
                == Some(id),
            !succeeded(status) ==> r == Err::<u128, CimError>(CimError::MountFailed(status))
                && final(self).spec_volume() == old(self).spec_volume(),
    {
        if status >= 0 {
            self.volume = Some(id);
            Ok(id)
        } else {
            Err(CimError::MountFailed(status))
        }
    }

    /// The arguments for binding `mountpoint` to the cached volume;
    /// `NoVolumeCached` when no identifier is cached.
    pub fn mount_volume(&self, mountpoint: &str) -> (r: Result<MountPointBinding, CimError>)
        ensures
            self.spec_volume() is None ==> r == Err::<MountPointBinding, CimError>(
                CimError::NoVolumeCached,
            ),
            self.spec_volume() matches Some(id) ==> r is Ok && r->Ok_0.mountpoint@
                == mountpoint_of(mountpoint@) && r->Ok_0.volume_path@ == volume_path_of(id).push(
                '\\',
            ),
    {
        match self.volume {
            None => Err(CimError::NoVolumeCached),
            Some(id) => {
                let mut p = chars_of(mountpoint);
                let n = p.len();
                if !(n > 0 && p[n - 1] == '\\') {
                    p.push('\\');
                }
                let mut v = chars_of(volume_path(id).as_str());
                v.push('\\');
                Ok(
                    MountPointBinding {
                        mountpoint: string_from_chars(p.as_slice()),
                        volume_path: string_from_chars(v.as_slice()),
                    },
                )
            },
        }
    }
}

} // verus!
