//! Registry users and their API tokens.

use vstd::prelude::*;
use vstd::string::*;

verus! {

/// `String::push` of std appends the character to the end of the text.
pub assume_specification[ String::push ](text: &mut String, c: char)
    ensures
        final(text)@ == old(text)@.push(c),
;

/// Whether a character is an ASCII letter or digit.
pub open spec fn alphanumeric(c: char) -> bool {
    ||| 'a' <= c <= 'z'
    ||| 'A' <= c <= 'Z'
    ||| '0' <= c <= '9'
}

/// Draws one character with rand: a sample of its `Alphanumeric`
/// distribution from the thread's generator, as a `char`. Believed: the
/// character is an ASCII letter or digit.
#[verifier::external_body]
fn random_alphanumeric() -> (c: char)
    ensures
        alphanumeric(c),
{
    char::from(rand::Rng::sample(&mut rand::thread_rng(), rand::distributions::Alphanumeric))
}

/// A random text of `len` ASCII letters and digits.
pub fn random_token(len: usize) -> (token: String)
    ensures
        token@.len() == len,
        forall|i: int| 0 <= i < len ==> alphanumeric(#[trigger] token@[i]),
{
    let mut token = String::new();
    let mut i: usize = 0;
    while i < len
        invariant
            i <= len,
            token@.len() == i,
            forall|j: int| 0 <= j < i ==> alphanumeric(#[trigger] token@[j]),
        decreases len - i,
    {
        token.push(random_alphanumeric());
        i += 1;
    }
    token
}

/// Why a login through GitHub was turned down.
#[derive(Clone, Copy, Debug, PartialEq, Eq, Structural)]
pub enum LoginError {
    /// The state that came back is not the one the session was given.
    InvalidState,
    /// GitHub did not answer the request for the user with 200.
    Refused { status: u32 },
}

/// Accepts the state that came back with the user only if the session
/// was given a state and it is the same.
pub fn check_state(returned: &str, issued: Option<&str>) -> (r: Result<(), LoginError>)
    ensures
        r is Ok <==> (issued matches Some(state) && state@ == returned@),
        r is Err ==> r == Err::<(), LoginError>(LoginError::InvalidState),
{
    match issued {
        Some(state) => {
            if String::from_str(state) == String::from_str(returned) {
                Ok(())
            } else {
                Err(LoginError::InvalidState)
            }
        },
        None => Err(LoginError::InvalidState),
    }
}

/// Accepts GitHub's answer to the request for the user only with status 200.
pub fn check_status(status: u32) -> (r: Result<(), LoginError>)
    ensures
        r is Ok <==> status == 200,
        r is Err ==> r == Err::<(), LoginError>(LoginError::Refused { status }),
{
    if status == 200 {
        Ok(())
    } else {
        Err(LoginError::Refused { status })
    }
}

/// A registry user, as the store holds it.
#[derive(Clone, Debug, PartialEq, Eq)]
pub struct User {
    pub id: i32,
    pub gh_login: String,
    pub name: Option<String>,
    pub email: Option<String>,
    pub avatar: Option<String>,
    pub gh_access_token: String,
    pub api_token: String,
}

/// What the registry tells of a user: everything but the tokens.
#[derive(Clone, Debug, PartialEq, Eq)]
pub struct EncodableUser {
    pub id: i32,
    pub login: String,
    pub email: Option<String>,
    pub name: Option<String>,
    pub avatar: Option<String>,
}

impl User {
    /// A fresh API token: thirty-two random ASCII letters and digits.
    pub fn new_api_token() -> (token: String)
        ensures
            token@.len() == 32,
            forall|i: int| 0 <= i < 32 ==> alphanumeric(#[trigger] token@[i]),
    {
        random_token(32)
    }

    /// The public face of the user: the id, the login, the e-mail address,
    /// the name and the avatar, without the tokens.
    pub fn encodable(self) -> (public: EncodableUser)
        ensures
            public.id == self.id,
            public.login == self.gh_login,
            public.email == self.email,
            public.name == self.name,
            public.avatar == self.avatar,
    {
        let User { id, email, api_token: _, gh_access_token: _, name, gh_login, avatar } = self;
        EncodableUser { id, email, avatar, login: gh_login, name }
    }
}

} // verus!
