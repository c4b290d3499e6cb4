//! The fallback strategy over two feed sources: the secondary is consulted
//! exactly when the primary reports the not-found status; every other
//! primary outcome is returned verbatim and the secondary is never invoked.

use vstd::prelude::*;

use crate::channel::Channel;
use crate::ports::{FeedFetcher, FetchError};
use crate::video::Video;

verus! {

/// The one failure class that sends retrieval to the secondary source: the
/// primary reported the not-found HTTP status.
pub fn should_use_fallback(r: &Result<Vec<Video>, FetchError>) -> (b: bool)
    ensures
        b == (r matches Err(FetchError::HttpError(404u16))),
{
    match r {
        Err(FetchError::HttpError(code)) => *code == 404,
        _ => false,
    }
}

/// A feed source composed of a primary and a secondary source.
pub struct FallbackFetcher<P, F> {
    primary: P,
    fallback: F,
}

impl<P: FeedFetcher, F: FeedFetcher> FallbackFetcher<P, F> {
    pub fn new(primary: P, fallback: F) -> Self {
        FallbackFetcher { primary, fallback }
    }
}

impl<P: FeedFetcher, F: FeedFetcher> FeedFetcher for FallbackFetcher<P, F> {
    fn fetch(&self, channel: &Channel) -> Result<Vec<Video>, FetchError> {
        let primary_result = self.primary.fetch(channel);
        if should_use_fallback(&primary_result) {
            self.fallback.fetch(channel)
        } else {
            primary_result
        }
    }
}

} // verus!
