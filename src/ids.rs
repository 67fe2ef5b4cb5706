use vstd::prelude::*;

verus! {

/// Opaque 128-bit identifier of a user, used as an ownership key.
#[derive(Clone, Copy, Debug, PartialEq, Eq, Structural)]
pub struct UserId(pub u128);

/// Identifier of a feed, assigned on insert.
#[derive(Clone, Copy, Debug, PartialEq, Eq, Structural)]
pub struct FeedId(pub i64);

/// Identifier of a feed entry, assigned on insert.
#[derive(Clone, Copy, Debug, PartialEq, Eq, Structural)]
pub struct FeedEntryId(pub i64);

/// Opaque 128-bit identifier of a job row, assigned on insert.
#[derive(Clone, Copy, Debug, PartialEq, Eq, Structural)]
pub struct JobId(pub u128);

/// Email address of a user.
#[derive(Clone, Debug)]
pub struct UserEmail(pub String);

impl UserEmail {
    pub fn as_str(&self) -> (r: &str)
        ensures
            r@ == self.0@,
    {
        self.0.as_str()
    }
}

} // verus!
