//! Channel identifiers and the channel value object.

use vstd::prelude::*;

verus! {

/// A channel identifier is rejected when it is empty or lacks the source's
/// `UC` prefix convention.
#[derive(Debug, PartialEq, Eq)]
pub enum ChannelIdError {
    Empty,
    InvalidPrefix,
}

/// Opaque token identifying a content channel. Never empty, always starts
/// with `UC`; constructed only through `parse`.
#[derive(Debug)]
pub struct ChannelId(String);

impl View for ChannelId {
    type V = Seq<char>;

    closed spec fn view(&self) -> Seq<char> {
        self.0@
    }
}

/// The prefix convention every channel identifier must satisfy.
pub open spec fn has_uc_prefix(s: Seq<char>) -> bool {
    s.len() >= 2 && s[0] == 'U' && s[1] == 'C'
}

impl ChannelId {
    /// Validating factory: returns the identifier exactly when the token is
    /// non-empty and carries the `UC` prefix.
    pub fn parse(id: &str) -> (r: Result<ChannelId, ChannelIdError>)
        ensures
            id@.len() == 0 ==> r == Err::<ChannelId, ChannelIdError>(ChannelIdError::Empty),
            id@.len() > 0 && !has_uc_prefix(id@) ==> r == Err::<ChannelId, ChannelIdError>(
                ChannelIdError::InvalidPrefix,
            ),
            has_uc_prefix(id@) ==> (r matches Ok(c) && c@ == id@),
    {
        if id.is_empty() {
            return Err(ChannelIdError::Empty);
        }
        let n = id.unicode_len();
        if n < 2 || id.get_char(0) != 'U' || id.get_char(1) != 'C' {
            return Err(ChannelIdError::InvalidPrefix);
        }
        Ok(ChannelId(id.to_owned()))
    }

    /// The underlying token.
    pub fn as_str(&self) -> (r: &str)
        ensures
            r@ == self@,
    {
        self.0.as_str()
    }
}

impl Clone for ChannelId {
    fn clone(&self) -> (r: Self)
        ensures
            r == *self,
    {
        ChannelId(self.0.clone())
    }
}

impl PartialEq for ChannelId {
    fn eq(&self, other: &ChannelId) -> (r: bool) {
        self.0 == other.0
    }
}

impl vstd::std_specs::cmp::PartialEqSpecImpl for ChannelId {
    open spec fn obeys_eq_spec() -> bool {
        true
    }

    open spec fn eq_spec(&self, other: &ChannelId) -> bool {
        self@ == other@
    }
}

impl Eq for ChannelId {}

/// A subscribed channel: display name plus identifier. Immutable value.
#[derive(Debug)]
pub struct Channel {
    pub name: String,
    pub id: ChannelId,
}

impl Clone for Channel {
    fn clone(&self) -> (r: Self)
        ensures
            r == *self,
    {
        Channel { name: self.name.clone(), id: self.id.clone() }
    }
}

} // verus!
