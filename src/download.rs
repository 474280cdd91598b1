//! The download of one map as a session: the caller performs each action
//! (a GET, a file creation, a write, a publication, a removal) and reports
//! what happened; the session decides what comes next.
//!
//! A body is written into a temporary file of the session's own and then
//! published under the map's file name by a link that never replaces an
//! existing file. So the map's own name only ever shows a complete file, and
//! of concurrent sessions for one map exactly one publication succeeds; the
//! others find the name taken and count the map as present.
use vstd::prelude::*;
use crate::mirrors::{BeatmapUrlProvider, next_url_outcome};
use crate::store::{map_file_path, map_file_path_spec, partial_file_path, partial_file_path_spec};

verus! {

/// Why the download of one map failed.
#[derive(Clone, Copy, Debug, PartialEq, Eq, Structural)]
pub enum DownloadError {
    /// Every mirror failed.
    NoMirrorAvailable,
    /// A mirror answered, but its body could not be read.
    BodyUnreadable,
    /// The local file could not be created, written or published.
    LocalIo,
    /// An event came that the session's current phase does not expect.
    OutOfOrder,
}

/// The outcome of publishing a finished file under the map's own name,
/// which never replaces an existing file.
#[derive(Clone, Copy, Debug, PartialEq, Eq, Structural)]
pub enum CreateOutcome {
    /// This session's file now stands under the map's name.
    Created,
    /// Another session published first; the map counts as present.
    AlreadyExists,
}

/// What happened to the last action.
#[derive(Clone, Copy, Debug, PartialEq, Eq, Structural)]
pub enum DownloadEvent {
    /// The GET failed, or the mirror answered with a non-success status.
    MirrorFailed,
    /// The mirror answered with success and its whole body is buffered.
    BodyReceived,
    /// The mirror answered with success but its body could not be read.
    BodyFailed,
    /// The temporary file was created.
    TemporaryCreated,
    /// The temporary file could not be created.
    CreateFailed,
    /// The buffered body was written in full.
    WriteSucceeded,
    /// Writing the body failed.
    WriteFailed,
    /// The publication returned.
    Published(CreateOutcome),
    /// The publication failed for another reason.
    PublishFailed,
    /// The temporary file was removed, or its removal was attempted.
    RemoveFinished,
}

/// What the caller is to do next.
#[derive(Debug, PartialEq, Eq)]
pub enum DownloadAction {
    /// GET this URL.
    Fetch(String),
    /// Create the temporary file at this path, failing if it exists.
    CreateTemporary(String),
    /// Write the buffered body into the temporary file.
    WriteBody,
    /// Link the temporary file (first path) under the map's name (second
    /// path), failing if that name is taken.
    Publish(String, String),
    /// Remove the temporary file at this path.
    RemoveTemporary(String),
    /// The download is over, with this result.
    Finish(Result<(), DownloadError>),
}

/// Where a download session stands.
#[derive(Clone, Copy, Debug, PartialEq, Eq, Structural)]
pub enum DownloadPhase {
    Fetching,
    Creating,
    Writing,
    Publishing,
    /// Removing the temporary file after the map was published.
    Tidying,
    /// Removing the temporary file after a failure.
    Cleaning,
    Done,
}

/// The download of one map.
#[derive(Debug)]
pub struct MapDownload {
    urls: BeatmapUrlProvider,
    token: u64,
    phase: DownloadPhase,
}

/// The action that follows a failed mirror when `tried` mirrors were handed out.
pub open spec fn after_mirror(beatmap_id: u64, tried: nat, r: DownloadAction) -> bool {
    match next_url_outcome(beatmap_id, tried) {
        Some(u) => r matches DownloadAction::Fetch(url) && url@ == u,
        None => r == DownloadAction::Finish(Err(DownloadError::NoMirrorAvailable)),
    }
}

/// The action removes the temporary file of session `token` for `beatmap_id`.
pub open spec fn removes_temporary(beatmap_id: u64, token: u64, r: DownloadAction) -> bool {
    r matches DownloadAction::RemoveTemporary(path) && path@ == partial_file_path_spec(beatmap_id, token)
}

impl MapDownload {
    pub closed spec fn target(&self) -> u64 {
        self.urls.target()
    }

    /// The session's own number, which names its temporary file.
    pub closed spec fn token(&self) -> u64 {
        self.token
    }

    /// How many mirrors have been asked so far.
    pub closed spec fn tried(&self) -> nat {
        self.urls.tried()
    }

    pub closed spec fn phase(&self) -> DownloadPhase {
        self.phase
    }

    /// Asks the next mirror, or gives up when none is left.
    fn next_mirror(&mut self) -> (r: DownloadAction)
        ensures
            final(self).target() == old(self).target(),
            final(self).token() == old(self).token(),
            after_mirror(old(self).target(), old(self).tried(), r),
            next_url_outcome(old(self).target(), old(self).tried()) is Some ==> final(self).tried()
                == old(self).tried() + 1 && final(self).phase() == DownloadPhase::Fetching,
            next_url_outcome(old(self).target(), old(self).tried()) is None ==> final(self).tried()
                == old(self).tried() && final(self).phase() == DownloadPhase::Done,
    {
        match self.urls.get_next_url() {
            Ok(url) => {
                self.phase = DownloadPhase::Fetching;
                DownloadAction::Fetch(url)
            },
            Err(_) => {
                self.phase = DownloadPhase::Done;
                DownloadAction::Finish(Err(DownloadError::NoMirrorAvailable))
            },
        }
    }

    /// Starts the download of `beatmap_id` as session `token`, a number that
    /// no other live session uses: the first action asks the mirror of
    /// highest priority.
    pub fn start(beatmap_id: u64, token: u64) -> (r: (MapDownload, DownloadAction))
        ensures
            r.0.target() == beatmap_id,
            r.0.token() == token,
            after_mirror(beatmap_id, 0, r.1),
            r.0.tried() == 1,
            r.0.phase() == DownloadPhase::Fetching,
    {
        let mut d = MapDownload {
            urls: BeatmapUrlProvider::new(beatmap_id),
            token,
            phase: DownloadPhase::Fetching,
        };
        let a = d.next_mirror();
        (d, a)
    }

    /// Takes what happened to the last action and returns the next one.
    /// Mirrors are asked one after the other in priority order; a body goes
    /// into the session's temporary file and is then published under the
    /// map's name; finding that name taken counts as success; the temporary
    /// file is removed before the session finishes, whatever the outcome.
    pub fn on_event(&mut self, event: DownloadEvent) -> (r: DownloadAction)
        ensures
            final(self).target() == old(self).target(),
            final(self).token() == old(self).token(),
            match (old(self).phase(), event) {
                (DownloadPhase::Fetching, DownloadEvent::MirrorFailed) => {
                    after_mirror(old(self).target(), old(self).tried(), r)
                        && (next_url_outcome(old(self).target(), old(self).tried()) is Some
                            ==> final(self).tried() == old(self).tried() + 1
                            && final(self).phase() == DownloadPhase::Fetching)
                        && (next_url_outcome(old(self).target(), old(self).tried()) is None
                            ==> final(self).phase() == DownloadPhase::Done)
                },
                (DownloadPhase::Fetching, DownloadEvent::BodyReceived) => {
                    &&& r matches DownloadAction::CreateTemporary(path)
                    &&& path@ == partial_file_path_spec(old(self).target(), old(self).token())
                    &&& final(self).phase() == DownloadPhase::Creating
                },
                (DownloadPhase::Fetching, DownloadEvent::BodyFailed) => {
                    r == DownloadAction::Finish(Err(DownloadError::BodyUnreadable))
                        && final(self).phase() == DownloadPhase::Done
                },
                (DownloadPhase::Creating, DownloadEvent::TemporaryCreated) => {
                    r == DownloadAction::WriteBody && final(self).phase() == DownloadPhase::Writing
                },
                (DownloadPhase::Creating, DownloadEvent::CreateFailed) => {
                    r == DownloadAction::Finish(Err(DownloadError::LocalIo))
                        && final(self).phase() == DownloadPhase::Done
                },
                (DownloadPhase::Writing, DownloadEvent::WriteSucceeded) => {
                    &&& r matches DownloadAction::Publish(from, to)
                    &&& from@ == partial_file_path_spec(old(self).target(), old(self).token())
                    &&& to@ == map_file_path_spec(old(self).target())
                    &&& final(self).phase() == DownloadPhase::Publishing
                },
                (DownloadPhase::Writing, DownloadEvent::WriteFailed) => {
                    removes_temporary(old(self).target(), old(self).token(), r)
                        && final(self).phase() == DownloadPhase::Cleaning
                },
                (DownloadPhase::Publishing, DownloadEvent::Published(_)) => {
                    removes_temporary(old(self).target(), old(self).token(), r)
                        && final(self).phase() == DownloadPhase::Tidying
                },
                (DownloadPhase::Publishing, DownloadEvent::PublishFailed) => {
                    removes_temporary(old(self).target(), old(self).token(), r)
                        && final(self).phase() == DownloadPhase::Cleaning
                },
                (DownloadPhase::Tidying, DownloadEvent::RemoveFinished) => {
                    r == DownloadAction::Finish(Ok(())) && final(self).phase() == DownloadPhase::Done
                },
                (DownloadPhase::Cleaning, DownloadEvent::RemoveFinished) => {
                    r == DownloadAction::Finish(Err(DownloadError::LocalIo))
                        && final(self).phase() == DownloadPhase::Done
                },
                _ => {
                    r == DownloadAction::Finish(Err(DownloadError::OutOfOrder))
                        && final(self).phase() == DownloadPhase::Done
                },
            },
    {
        match (self.phase, event) {
            (DownloadPhase::Fetching, DownloadEvent::MirrorFailed) => self.next_mirror(),
            (DownloadPhase::Fetching, DownloadEvent::BodyReceived) => {
                self.phase = DownloadPhase::Creating;
                DownloadAction::CreateTemporary(partial_file_path(self.urls.id(), self.token))
            },
            (DownloadPhase::Fetching, DownloadEvent::BodyFailed) => {
                self.phase = DownloadPhase::Done;
                DownloadAction::Finish(Err(DownloadError::BodyUnreadable))
            },
            (DownloadPhase::Creating, DownloadEvent::TemporaryCreated) => {
                self.phase = DownloadPhase::Writing;
                DownloadAction::WriteBody
            },
            (DownloadPhase::Creating, DownloadEvent::CreateFailed) => {
                self.phase = DownloadPhase::Done;
                DownloadAction::Finish(Err(DownloadError::LocalIo))
            },
            (DownloadPhase::Writing, DownloadEvent::WriteSucceeded) => {
                self.phase = DownloadPhase::Publishing;
                DownloadAction::Publish(
                    partial_file_path(self.urls.id(), self.token),
                    map_file_path(self.urls.id()),
                )
            },
            (DownloadPhase::Writing, DownloadEvent::WriteFailed) => {
                self.phase = DownloadPhase::Cleaning;
                DownloadAction::RemoveTemporary(partial_file_path(self.urls.id(), self.token))
            },
            (DownloadPhase::Publishing, DownloadEvent::Published(_)) => {
                self.phase = DownloadPhase::Tidying;
                DownloadAction::RemoveTemporary(partial_file_path(self.urls.id(), self.token))
            },
            (DownloadPhase::Publishing, DownloadEvent::PublishFailed) => {
                self.phase = DownloadPhase::Cleaning;
                DownloadAction::RemoveTemporary(partial_file_path(self.urls.id(), self.token))
            },
            (DownloadPhase::Tidying, DownloadEvent::RemoveFinished) => {
                self.phase = DownloadPhase::Done;
                DownloadAction::Finish(Ok(()))
            },
            (DownloadPhase::Cleaning, DownloadEvent::RemoveFinished) => {
                self.phase = DownloadPhase::Done;
                DownloadAction::Finish(Err(DownloadError::LocalIo))
            },
            _ => {
                self.phase = DownloadPhase::Done;
                DownloadAction::Finish(Err(DownloadError::OutOfOrder))
            },
        }
    }
}

} // verus!
