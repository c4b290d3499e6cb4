//! The error taxonomy and the collaborator capability interfaces the
//! pipeline consumes. Any implementation satisfying the signatures and
//! failure contracts is substitutable.

use vstd::prelude::*;

use crate::channel::Channel;
use crate::video::{Video, VideoId};
use crate::watched::WatchedSet;

verus! {

/// A per-channel retrieval failure. Isolated: it never fails the pipeline.
#[derive(Debug)]
pub enum FetchError {
    Network(String),
    HttpError(u16),
    Parse(String),
}

/// A watched-store failure. Fatal for the current run.
#[derive(Debug)]
pub enum StoreError {
    Read(String),
    Write(String),
}

/// A playback failure. Marking as watched is attempted only after a
/// successful play.
#[derive(Debug)]
pub enum PlayError {
    PlayerFailed(String),
}

/// Retrieves the video list of one channel, or fails with a classified
/// error. Implementations live at the system's edge.
pub trait FeedFetcher {
    fn fetch(&self, channel: &Channel) -> Result<Vec<Video>, FetchError>;
}

/// Persists the set of watched video identifiers. Marking is idempotent,
/// and a failed marking leaves the set as it was.
pub trait VideoStore {
    /// The set of identifier tokens the store holds. Stores at the system's
    /// edge that cannot say leave the default in place; their contracts then
    /// promise nothing about the set's contents.
    open spec fn watched(&self) -> Set<Seq<char>> {
        Set::<Seq<char>>::empty()
    }

    fn load_watched(&self) -> (r: Result<WatchedSet, StoreError>)
        ensures
            r matches Ok(w) ==> w@ == self.watched(),
    ;

    fn mark_watched(&mut self, video_id: &VideoId) -> (r: Result<(), StoreError>)
        ensures
            r is Ok ==> final(self).watched() == old(self).watched().insert(video_id@),
            r is Err ==> final(self).watched() == old(self).watched(),
    ;
}

/// Plays a video by URL.
pub trait VideoPlayer {
    fn play(&self, url: &str) -> Result<(), PlayError>;
}

/// Reports whether a video is short-form content. Total: a check that
/// cannot be completed answers `false`.
pub trait ShortsChecker {
    fn is_short(&self, video_id: &VideoId) -> bool;
}

} // verus!
