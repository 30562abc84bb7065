//! Data carried by the authentication endpoints.  The handlers themselves,
//! password hashing and session storage live outside the verified library.

use vstd::prelude::*;

verus! {

/// What a signed-in session records about a user.
#[derive(Debug)]
#[allow(dead_code)]
pub struct SessionDetails {
    id: i64,
}

/// The credentials a login form submits.
#[derive(Debug)]
pub struct LoginUser {
    /// The email the user signed up with.
    pub email: String,
    /// The password to verify.
    pub password: String,
}

/// The fields a signup form submits.
#[derive(Debug)]
pub struct SignupFormData {
    /// The email to sign up with.
    pub email: String,
    /// The username to sign up with.
    pub username: String,
    /// The chosen password.
    pub password: String,
    /// The chosen password, repeated.
    pub password2: String,
    /// Whether the session should be remembered.
    pub remember: Option<String>,
}

/// The query a github authentication callback carries.
#[derive(Debug)]
pub struct GithubRequest {
    /// The authentication code handed back by github.
    pub code: String,
}

/// The credentials this deployment uses against github.
#[derive(Debug)]
#[allow(dead_code)]
pub struct GithubClient {
    client_id: String,
    client_secret: String,
}

} // verus!
