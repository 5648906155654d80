//! Second-factor value types: the six-digit challenge code and the login
//! attempt identifier, with their random generators.

use vstd::prelude::*;

use rand::Rng;

use crate::errors::AuthApiError;
use crate::text::{digit_str, is_digit_char};

verus! {

/// The invariant of `TwoFactorCode`: exactly six ASCII digits.
pub open spec fn valid_code(s: Seq<char>) -> bool {
    s.len() == 6 && forall|i: int| 0 <= i < s.len() ==> is_digit_char(#[trigger] s[i])
}

/// A six-digit challenge code, generated fresh for each login attempt.
#[derive(Debug)]
pub struct TwoFactorCode(String);

impl Clone for TwoFactorCode {
    fn clone(&self) -> (r: TwoFactorCode)
        ensures
            r == *self,
    {
        TwoFactorCode(self.0.clone())
    }
}

impl View for TwoFactorCode {
    type V = Seq<char>;

    closed spec fn view(&self) -> Seq<char> {
        self.0@
    }
}

impl PartialEq for TwoFactorCode {
    fn eq(&self, other: &TwoFactorCode) -> (r: bool) {
        self.0 == other.0
    }
}

impl vstd::std_specs::cmp::PartialEqSpecImpl for TwoFactorCode {
    open spec fn obeys_eq_spec() -> bool {
        true
    }

    open spec fn eq_spec(&self, other: &TwoFactorCode) -> bool {
        self@ == other@
    }
}

/// Relies on rand's `Rng::random_range`: the result lies within the given
/// range, here below ten.
#[verifier::external_body]
fn random_digit() -> (r: u64)
    ensures
        r < 10,
{
    rand::rng().random_range(0..10u64)
}

/// Draws a fresh six-digit code.
pub fn gen_code() -> (r: Result<String, AuthApiError>)
    ensures
        r matches Ok(c) && valid_code(c@),
{
    let mut out = String::new();
    let mut i: usize = 0;
    while i < 6
        invariant
            i <= 6,
            out@.len() == i,
            forall|j: int| 0 <= j < out@.len() ==> is_digit_char(#[trigger] out@[j]),
        decreases 6 - i,
    {
        let d = random_digit();
        out.append(digit_str(d));
        proof {
            crate::text::lemma_digit_char_value(d as int);
        }
        i = i + 1;
    }
    Ok(out)
}

impl TwoFactorCode {
    pub fn as_str(&self) -> (r: &str)
        ensures
            r@ == self@,
    {
        self.0.as_str()
    }

    /// Type invariant: six ASCII digits.
    pub open spec fn wf(&self) -> bool {
        valid_code(self@)
    }

    /// A fresh random code.
    pub fn new() -> (r: TwoFactorCode)
        ensures
            r.wf(),
    {
        match gen_code() {
            Ok(code) => TwoFactorCode(code),
            Err(_) => {
                proof {
                    assert(false);
                }
                TwoFactorCode(String::new())
            },
        }
    }

    /// Accepts exactly six ASCII digits.
    pub fn try_from(value: &str) -> (r: Result<TwoFactorCode, AuthApiError>)
        ensures
            r is Ok <==> valid_code(value@),
            r matches Ok(c) ==> c@ == value@ && c.wf(),
            r matches Err(e) ==> e matches AuthApiError::InvalidData(_),
    {
        let n = value.unicode_len();
        if n != 6 {
            return Err(
                AuthApiError::InvalidData(String::from_str("Two factor code must be 6 digits")),
            );
        }
        let mut i: usize = 0;
        while i < n
            invariant
                i <= n,
                n == value@.len(),
                forall|j: int| 0 <= j < i ==> is_digit_char(#[trigger] value@[j]),
            decreases n - i,
        {
            let u = value.get_char(i) as u32;
            if u < 48 || u > 57 {
                return Err(
                    AuthApiError::InvalidData(String::from_str("Two factor code must be 6 digits")),
                );
            }
            i = i + 1;
        }
        Ok(TwoFactorCode(value.to_owned()))
    }
}

/// True when `c` is a lowercase hexadecimal digit.
pub open spec fn is_hex_lower(c: char) -> bool {
    is_digit_char(c) || (97 <= c as u32 <= 102)
}

/// True when `c` is a hexadecimal digit of either case.
pub open spec fn is_hex_any(c: char) -> bool {
    is_hex_lower(c) || (65 <= c as u32 <= 70)
}

/// The hyphenated identifier form with hex digits of either case.
pub open spec fn hyphenated_uuid_chars(s: Seq<char>) -> bool {
    &&& s.len() == 36
    &&& forall|i: int|
        0 <= i < 36 ==> if i == 8 || i == 13 || i == 18 || i == 23 {
            #[trigger] s[i] == '-'
        } else {
            is_hex_any(s[i])
        }
}

/// The unbroken identifier form: 32 hex digits of either case.
pub open spec fn simple_uuid_chars(s: Seq<char>) -> bool {
    s.len() == 32 && forall|i: int| 0 <= i < 32 ==> is_hex_any(#[trigger] s[i])
}

/// The hyphenated form wrapped in braces.
pub open spec fn braced_uuid_chars(s: Seq<char>) -> bool {
    s.len() == 38 && s[0] == '{' && s[37] == '}' && hyphenated_uuid_chars(s.subrange(1, 37))
}

/// The nine-character URN prefix, letters of either case.
pub open spec fn urn_prefix_chars(s: Seq<char>) -> bool {
    &&& s.len() >= 9
    &&& (s[0] == 'u' || s[0] == 'U')
    &&& (s[1] == 'r' || s[1] == 'R')
    &&& (s[2] == 'n' || s[2] == 'N')
    &&& s[3] == ':'
    &&& (s[4] == 'u' || s[4] == 'U')
    &&& (s[5] == 'u' || s[5] == 'U')
    &&& (s[6] == 'i' || s[6] == 'I')
    &&& (s[7] == 'd' || s[7] == 'D')
    &&& s[8] == ':'
}

/// The URN identifier form: the prefix and the hyphenated form.
pub open spec fn urn_uuid_chars(s: Seq<char>) -> bool {
    s.len() == 45 && urn_prefix_chars(s) && hyphenated_uuid_chars(s.subrange(9, 45))
}

/// The texts `LoginAttemptId::try_from` accepts: any of the four
/// identifier forms, hex digits of either case.
pub open spec fn acceptable_uuid_chars(s: Seq<char>) -> bool {
    ||| simple_uuid_chars(s)
    ||| hyphenated_uuid_chars(s)
    ||| braced_uuid_chars(s)
    ||| urn_uuid_chars(s)
}

/// Hyphens inserted before the source position `i` when the unbroken form
/// is rewritten to the hyphenated one.
pub open spec fn hyphens_before(i: int) -> int {
    (if i > 8 {
        1int
    } else {
        0
    }) + (if i > 12 {
        1int
    } else {
        0
    }) + (if i > 16 {
        1int
    } else {
        0
    }) + (if i > 20 {
        1int
    } else {
        0
    })
}

/// Normalises the 36-character hyphenated region of `value` starting at
/// `from` to lowercase; accepts exactly the hyphenated form there, and
/// leaves an already-canonical region unchanged.
fn normalize_hyphenated(value: &str, from: usize) -> (r: Option<String>)
    requires
        from <= usize::MAX - 36,
        from + 36 <= value@.len(),
    ensures
        r is Some <==> hyphenated_uuid_chars(value@.subrange(from as int, from as int + 36)),
        r matches Some(t) ==> valid_uuid_chars(t@),
        valid_uuid_chars(value@.subrange(from as int, from as int + 36)) ==> (r matches Some(t)
            && t@ == value@.subrange(from as int, from as int + 36)),
{
    let ghost region = value@.subrange(from as int, from as int + 36);
    let mut out = String::new();
    let mut i: usize = 0;
    while i < 36
        invariant
            i <= 36,
            from <= usize::MAX - 36,
            from + 36 <= value@.len(),
            region == value@.subrange(from as int, from as int + 36),
            out@.len() == i,
            forall|j: int|
                0 <= j < i ==> if j == 8 || j == 13 || j == 18 || j == 23 {
                    #[trigger] out@[j] == '-'
                } else {
                    is_hex_lower(out@[j])
                },
            forall|j: int| 0 <= j < i ==> (out@[j] == region[j] || !is_hex_lower(region[j])),
            forall|j: int|
                0 <= j < i ==> if j == 8 || j == 13 || j == 18 || j == 23 {
                    #[trigger] region[j] == '-'
                } else {
                    is_hex_any(region[j])
                },
        decreases 36 - i,
    {
        let c = value.get_char(from + i);
        proof {
            assert(region[i as int] == c);
        }
        let u = c as u32;
        if i == 8 || i == 13 || i == 18 || i == 23 {
            if c != '-' {
                return None;
            }
            out.append("-");
            proof {
                reveal_strlit("-");
            }
        } else if (48 <= u && u <= 57) || (97 <= u && u <= 102) {
            out.append(value.substring_char(from + i, from + i + 1));
            proof {
                assert(value@.subrange(from as int + i, from as int + i + 1) =~= seq![c]);
            }
        } else if 65 <= u && u <= 70 {
            out.append(lower_hex_str(c));
        } else {
            return None;
        }
        i = i + 1;
    }
    proof {
        if valid_uuid_chars(region) {
            assert forall|j: int| 0 <= j < 36 implies out@[j] == region[j] by {
                if j != 8 && j != 13 && j != 18 && j != 23 {
                    assert(is_hex_lower(region[j]));
                }
            }
            assert(out@ =~= region);
        }
    }
    Some(out)
}

/// Rewrites the unbroken form to the hyphenated lowercase one; accepts
/// exactly 32 hex digits of either case.
fn normalize_simple(value: &str) -> (r: Option<String>)
    requires
        value@.len() == 32,
    ensures
        r is Some <==> simple_uuid_chars(value@),
        r matches Some(t) ==> valid_uuid_chars(t@),
{
    let mut out = String::new();
    let mut i: usize = 0;
    while i < 32
        invariant
            i <= 32,
            value@.len() == 32,
            out@.len() == i + hyphens_before(i as int),
            forall|j: int|
                0 <= j < out@.len() ==> if j == 8 || j == 13 || j == 18 || j == 23 {
                    #[trigger] out@[j] == '-'
                } else {
                    is_hex_lower(out@[j])
                },
            forall|j: int| 0 <= j < i ==> is_hex_any(#[trigger] value@[j]),
        decreases 32 - i,
    {
        if i == 8 || i == 12 || i == 16 || i == 20 {
            out.append("-");
            proof {
                reveal_strlit("-");
            }
        }
        let c = value.get_char(i);
        let u = c as u32;
        if (48 <= u && u <= 57) || (97 <= u && u <= 102) {
            out.append(value.substring_char(i, i + 1));
            proof {
                assert(value@.subrange(i as int, i as int + 1) =~= seq![c]);
            }
        } else if 65 <= u && u <= 70 {
            out.append(lower_hex_str(c));
        } else {
            return None;
        }
        i = i + 1;
    }
    proof {
        assert(valid_uuid_chars(out@));
    }
    Some(out)
}

/// Whether `value` opens with the URN prefix, letters of either case.
fn urn_prefix_check(value: &str) -> (r: bool)
    requires
        value@.len() >= 9,
    ensures
        r == urn_prefix_chars(value@),
{
    let c0 = value.get_char(0);
    let c1 = value.get_char(1);
    let c2 = value.get_char(2);
    let c3 = value.get_char(3);
    let c4 = value.get_char(4);
    let c5 = value.get_char(5);
    let c6 = value.get_char(6);
    let c7 = value.get_char(7);
    let c8 = value.get_char(8);
    (c0 == 'u' || c0 == 'U') && (c1 == 'r' || c1 == 'R') && (c2 == 'n' || c2 == 'N') && c3 == ':'
        && (c4 == 'u' || c4 == 'U') && (c5 == 'u' || c5 == 'U') && (c6 == 'i' || c6 == 'I') && (c7
        == 'd' || c7 == 'D') && c8 == ':'
}

/// The invariant of `LoginAttemptId`: the hyphenated lowercase form of a
/// 128-bit identifier, 36 characters with hyphens at the four standard
/// positions.
pub open spec fn valid_uuid_chars(s: Seq<char>) -> bool {
    &&& s.len() == 36
    &&& forall|i: int|
        0 <= i < 36 ==> if i == 8 || i == 13 || i == 18 || i == 23 {
            #[trigger] s[i] == '-'
        } else {
            is_hex_lower(s[i])
        }
}

/// An opaque, unique identifier of one login attempt.
#[derive(Debug)]
pub struct LoginAttemptId(String);

impl Clone for LoginAttemptId {
    fn clone(&self) -> (r: LoginAttemptId)
        ensures
            r == *self,
    {
        LoginAttemptId(self.0.clone())
    }
}

impl View for LoginAttemptId {
    type V = Seq<char>;

    closed spec fn view(&self) -> Seq<char> {
        self.0@
    }
}

impl PartialEq for LoginAttemptId {
    fn eq(&self, other: &LoginAttemptId) -> (r: bool) {
        self.0 == other.0
    }
}

impl vstd::std_specs::cmp::PartialEqSpecImpl for LoginAttemptId {
    open spec fn obeys_eq_spec() -> bool {
        true
    }

    open spec fn eq_spec(&self, other: &LoginAttemptId) -> bool {
        self@ == other@
    }
}

/// Relies on uuid's `Uuid::new_v4` and its hyphenated `Display` form: 36
/// characters, lowercase hex digits with hyphens at positions 8, 13, 18
/// and 23.
#[verifier::external_body]
fn random_uuid_string() -> (r: String)
    ensures
        valid_uuid_chars(r@),
{
    uuid::Uuid::new_v4().to_string()
}

/// The lowercase form of an uppercase hex letter, for normalising input.
fn lower_hex_str(c: char) -> (r: &'static str)
    requires
        65 <= c as u32 <= 70,
    ensures
        r@.len() == 1,
        is_hex_lower(r@[0]),
        r@[0] as u32 == c as u32 + 32,
{
    proof {
        reveal_strlit("a");
        reveal_strlit("b");
        reveal_strlit("c");
        reveal_strlit("d");
        reveal_strlit("e");
        reveal_strlit("f");
    }
    if c == 'A' {
        "a"
    } else if c == 'B' {
        "b"
    } else if c == 'C' {
        "c"
    } else if c == 'D' {
        "d"
    } else if c == 'E' {
        "e"
    } else {
        proof {
            assert(c == 'F');
        }
        "f"
    }
}

impl LoginAttemptId {
    pub fn as_str(&self) -> (r: &str)
        ensures
            r@ == self@,
    {
        self.0.as_str()
    }

    /// Type invariant: hyphenated lowercase identifier text.
    pub open spec fn wf(&self) -> bool {
        valid_uuid_chars(self@)
    }

    /// A fresh random identifier.
    pub fn new() -> (r: LoginAttemptId)
        ensures
            r.wf(),
    {
        LoginAttemptId(random_uuid_string())
    }

    /// Accepts any of the four identifier forms — hyphenated, unbroken,
    /// braced and URN — normalising to the hyphenated lowercase form; an
    /// already-canonical input is kept as it stands.
    pub fn try_from(value: &str) -> (r: Result<LoginAttemptId, AuthApiError>)
        ensures
            r is Ok <==> acceptable_uuid_chars(value@),
            r matches Ok(id) ==> id.wf(),
            r matches Err(e) ==> e matches AuthApiError::InvalidLoginAttemptId,
            valid_uuid_chars(value@) ==> (r matches Ok(id) && id@ == value@),
    {
        let n = value.unicode_len();
        if n == 36 {
            proof {
                assert(value@.subrange(0, 36) =~= value@);
            }
            match normalize_hyphenated(value, 0) {
                Some(t) => Ok(LoginAttemptId(t)),
                None => Err(AuthApiError::InvalidLoginAttemptId),
            }
        } else if n == 32 {
            match normalize_simple(value) {
                Some(t) => Ok(LoginAttemptId(t)),
                None => Err(AuthApiError::InvalidLoginAttemptId),
            }
        } else if n == 38 {
            if value.get_char(0) != '{' || value.get_char(37) != '}' {
                return Err(AuthApiError::InvalidLoginAttemptId);
            }
            match normalize_hyphenated(value, 1) {
                Some(t) => Ok(LoginAttemptId(t)),
                None => Err(AuthApiError::InvalidLoginAttemptId),
            }
        } else if n == 45 {
            if !urn_prefix_check(value) {
                return Err(AuthApiError::InvalidLoginAttemptId);
            }
            match normalize_hyphenated(value, 9) {
                Some(t) => Ok(LoginAttemptId(t)),
                None => Err(AuthApiError::InvalidLoginAttemptId),
            }
        } else {
            Err(AuthApiError::InvalidLoginAttemptId)
        }
    }
}

} // verus!
