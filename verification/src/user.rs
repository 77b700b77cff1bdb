//! The login request body: a username and a password, with the
//! validation rule the service applies before authenticating.

use vstd::prelude::*;
use vstd::string::StrSliceExecFns;

verus! {

/// The fewest characters a username may have.
pub const MIN_USERNAME_CHARS: usize = 3;

/// A user attempting to log in. The password is held only for the check
/// against the stored hash and is never rendered.
pub struct User {
    pub username: String,
    pub password: String,
}

impl User {
    /// Creates a new [`User`].
    pub fn new(username: String, password: String) -> (r: User)
        ensures
            r.username@ == username@,
            r.password@ == password@,
    {
        User { username, password }
    }

    /// Whether this user's fields are acceptable: the username must be
    /// at least three characters long.
    pub fn validate(&self) -> (r: bool)
        ensures
            r == (self.username@.len() >= MIN_USERNAME_CHARS),
    {
        self.username.as_str().unicode_len() >= MIN_USERNAME_CHARS
    }
}

/// A [`User`] that arrived encoded as JSON. The decoding itself happens
/// at the HTTP edge; the value carried here has already been parsed.
pub struct JsonEncodedUser(pub User);

impl JsonEncodedUser {
    /// The user carried by this request body.
    pub fn user(&self) -> (r: &User)
        ensures
            r.username@ == self.0.username@,
            r.password@ == self.0.password@,
    {
        &self.0
    }
}

} // verus!
