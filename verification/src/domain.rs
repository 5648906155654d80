//! Validated value types: email addresses, passwords, hashed passwords and
//! user records. Construction is the only validation point; a value of one
//! of these types always satisfies its invariant.

use vstd::prelude::*;

use crate::errors::DataError;
use crate::text::find_char;
use crate::text::rfind_char;

verus! {

/// A well-formed address split: `a` is the position of the only `@`, the
/// local part before it is non-empty, and `d` is the position of the last
/// dot, which starts a TLD of at least two characters and leaves a
/// non-empty host between `@` and itself.
pub open spec fn valid_email_split(s: Seq<char>, a: int, d: int) -> bool {
    &&& 1 <= a
    &&& a + 2 <= d
    &&& d + 3 <= s.len()
    &&& s[a] == '@'
    &&& s[d] == '.'
    &&& forall|j: int| 0 <= j < s.len() && j != a ==> s[j] != '@'
    &&& forall|j: int| d < j < s.len() ==> s[j] != '.'
}

/// The invariant of `Email`: exactly one `@`, a non-empty local part, and
/// a domain whose dot-separated TLD has at least two characters.
pub open spec fn valid_email(s: Seq<char>) -> bool {
    exists|a: int, d: int| #[trigger] valid_email_split(s, a, d)
}

/// A validated email address.
#[derive(Debug)]
pub struct Email(String);

impl Clone for Email {
    fn clone(&self) -> (r: Email)
        ensures
            r == *self,
    {
        Email(self.0.clone())
    }
}

impl View for Email {
    type V = Seq<char>;

    closed spec fn view(&self) -> Seq<char> {
        self.0@
    }
}

impl Email {
    /// The address as text.
    pub fn as_str(&self) -> (r: &str)
        ensures
            r@ == self@,
    {
        self.0.as_str()
    }

    /// Type invariant: the wrapped text is a well-formed address.
    pub open spec fn wf(&self) -> bool {
        valid_email(self@)
    }

    /// Validates `email`; accepts exactly the well-formed addresses.
    pub fn parse(email: &str) -> (r: Result<Email, DataError>)
        ensures
            r is Ok <==> valid_email(email@),
            r matches Ok(e) ==> e@ == email@ && e.wf(),
            r matches Err(e) ==> e matches DataError::InvalidEmail(s) && s@ == email@,
    {
        let n = email.unicode_len();
        let a = match find_char(email, 0, '@') {
            Some(a) => a,
            None => {
                proof {
                    assert forall|a2: int, d2: int| !valid_email_split(email@, a2, d2) by {
                        if valid_email_split(email@, a2, d2) {
                            assert(email@[a2] != '@');
                        }
                    }
                }
                return Err(DataError::InvalidEmail(email.to_owned()));
            },
        };
        if let Some(b) = find_char(email, a + 1, '@') {
            proof {
                assert forall|a2: int, d2: int| !valid_email_split(email@, a2, d2) by {
                    if valid_email_split(email@, a2, d2) {
                        if a2 != a {
                            assert(email@[a as int] != '@');
                        } else {
                            assert(email@[b as int] != '@');
                        }
                    }
                }
            }
            return Err(DataError::InvalidEmail(email.to_owned()));
        }
        if a == 0 {
            proof {
                assert forall|a2: int, d2: int| !valid_email_split(email@, a2, d2) by {
                    if valid_email_split(email@, a2, d2) {
                        if a2 != 0 {
                            assert(email@[0] != '@');
                        }
                    }
                }
            }
            return Err(DataError::InvalidEmail(email.to_owned()));
        }
        let d = match rfind_char(email, a + 1, n, '.') {
            Some(d) => d,
            None => {
                proof {
                    assert forall|a2: int, d2: int| !valid_email_split(email@, a2, d2) by {
                        if valid_email_split(email@, a2, d2) {
                            assert(a2 == a) by {
                                if a2 != a {
                                    assert(email@[a as int] != '@');
                                }
                            }
                            assert(email@[d2] != '.');
                        }
                    }
                }
                return Err(DataError::InvalidEmail(email.to_owned()));
            },
        };
        if d - a < 2 || n - d < 3 {
            proof {
                assert forall|a2: int, d2: int| !valid_email_split(email@, a2, d2) by {
                    if valid_email_split(email@, a2, d2) {
                        assert(a2 == a) by {
                            if a2 != a {
                                assert(email@[a as int] != '@');
                            }
                        }
                        assert(d2 == d) by {
                            if d2 < d {
                                assert(email@[d as int] != '.');
                            } else if d2 > d {
                                assert(email@[d2] != '.');
                            }
                        }
                    }
                }
            }
            return Err(DataError::InvalidEmail(email.to_owned()));
        }
        proof {
            assert(valid_email_split(email@, a as int, d as int));
        }
        Ok(Email(email.to_owned()))
    }
}

impl PartialEq for Email {
    fn eq(&self, other: &Email) -> (r: bool) {
        self.0 == other.0
    }
}

impl vstd::std_specs::cmp::PartialEqSpecImpl for Email {
    open spec fn obeys_eq_spec() -> bool {
        true
    }

    open spec fn eq_spec(&self, other: &Email) -> bool {
        self@ == other@
    }
}

/// The least length a password may have.
pub const MIN_PASSWORD_LEN: usize = 8;

/// A validated plaintext password. It is consumed into a `HashedPassword`
/// and never persisted.
#[derive(Debug)]
pub struct Password(String);

impl Clone for Password {
    fn clone(&self) -> (r: Password)
        ensures
            r == *self,
    {
        Password(self.0.clone())
    }
}

impl View for Password {
    type V = Seq<char>;

    closed spec fn view(&self) -> Seq<char> {
        self.0@
    }
}

impl Password {
    pub fn as_str(&self) -> (r: &str)
        ensures
            r@ == self@,
    {
        self.0.as_str()
    }

    /// Type invariant: at least `MIN_PASSWORD_LEN` characters.
    pub open spec fn wf(&self) -> bool {
        self@.len() >= MIN_PASSWORD_LEN
    }

    /// Validates `password`; fails on fewer than `MIN_PASSWORD_LEN`
    /// characters, reporting the offered length.
    pub fn parse(password: &str) -> (r: Result<Password, DataError>)
        ensures
            r is Ok <==> password@.len() >= MIN_PASSWORD_LEN,
            r matches Ok(p) ==> p@ == password@ && p.wf(),
            r matches Err(e) ==> e matches DataError::PasswordTooShort(l) && l == password@.len(),
    {
        let n = password.unicode_len();
        if n < MIN_PASSWORD_LEN {
            return Err(DataError::PasswordTooShort(n));
        }
        Ok(Password(password.to_owned()))
    }
}

/// What the one-way transform makes of a password.
pub open spec fn spec_hashed(s: Seq<char>) -> Seq<char> {
    "hashed_"@ + s
}

/// The one-way, deterministic password transform. This is a development
/// placeholder, and total: it never fails.
pub fn hash_password(password: &str) -> (r: Result<String, crate::errors::AuthApiError>)
    ensures
        r matches Ok(h) && h@ == spec_hashed(password@),
{
    Ok(String::from_str("hashed_").concat(password))
}

/// The opaque product of hashing a password. Equality against a stored
/// value is the credential-check mechanism.
#[derive(Debug)]
pub struct HashedPassword(String);

impl Clone for HashedPassword {
    fn clone(&self) -> (r: HashedPassword)
        ensures
            r == *self,
    {
        HashedPassword(self.0.clone())
    }
}

impl View for HashedPassword {
    type V = Seq<char>;

    closed spec fn view(&self) -> Seq<char> {
        self.0@
    }
}

impl HashedPassword {
    pub fn as_str(&self) -> (r: &str)
        ensures
            r@ == self@,
    {
        self.0.as_str()
    }
}

impl HashedPassword {
    /// Hashing is total, so this conversion always succeeds.
    pub fn from(p: &Password) -> (r: HashedPassword)
        ensures
            r@ == spec_hashed(p@),
    {
        match hash_password(p.as_str()) {
            Ok(h) => HashedPassword(h),
            Err(_) => HashedPassword(String::new()),
        }
    }
}

impl PartialEq for HashedPassword {
    fn eq(&self, other: &HashedPassword) -> (r: bool) {
        self.0 == other.0
    }
}

impl vstd::std_specs::cmp::PartialEqSpecImpl for HashedPassword {
    open spec fn obeys_eq_spec() -> bool {
        true
    }

    open spec fn eq_spec(&self, other: &HashedPassword) -> bool {
        self@ == other@
    }
}

/// Whether a user must complete a second factor, and over which channel.
#[derive(Debug, Clone, Copy, PartialEq, Eq, Structural)]
pub enum TwoFactorMethod {
    Email,
    Disabled,
}

/// A user record: identity key is the email, the password is stored
/// hashed, and `two_factor` picks the login flow.
#[derive(Debug)]
pub struct User {
    pub email: Email,
    pub password: HashedPassword,
    pub two_factor: TwoFactorMethod,
}

/// The mathematical content of a user record.
pub struct UserV {
    pub email: Seq<char>,
    pub password: Seq<char>,
    pub two_factor: TwoFactorMethod,
}

impl View for User {
    type V = UserV;

    open spec fn view(&self) -> UserV {
        UserV { email: self.email@, password: self.password@, two_factor: self.two_factor }
    }
}

impl Clone for User {
    fn clone(&self) -> (r: User)
        ensures
            r == *self,
    {
        User {
            email: self.email.clone(),
            password: self.password.clone(),
            two_factor: self.two_factor,
        }
    }
}

impl User {
    pub fn new(email: Email, password: HashedPassword, two_factor: TwoFactorMethod) -> (r: User)
        ensures
            r.email == email,
            r.password == password,
            r.two_factor == two_factor,
    {
        User { email, password, two_factor }
    }
}

} // verus!
