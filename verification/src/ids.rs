//! Validated identifiers for targets, checks, profiles, rules, notifiers,
//! observers and check revisions, and the configuration generation and round
//! identifiers.
use vstd::prelude::*;

use crate::text;
use crate::text::{chars_of, concat3, u64_to_decimal};

verus! {

/// Why an identifier was rejected; `message` says it in words.
#[derive(Debug, Clone, PartialEq, Eq, Hash)]
pub struct IdParseError {
    pub message: String,
}

/// The characters an identifier may hold: lowercase ASCII letters, digits,
/// `.`, `_` and `-`.
pub open spec fn is_id_char(c: char) -> bool {
    ('a' <= c && c <= 'z') || ('0' <= c && c <= '9') || c == '.' || c == '_' || c == '-'
}

/// The length in bytes of the UTF-8 encoding of `s`, as `str::len` gives it.
pub open spec fn byte_len(s: Seq<char>) -> nat {
    (vstd::utf8::encode_utf8(s).len() as usize) as nat
}

/// Whether `s` is a valid identifier: 1 to 64 bytes long, made of
/// identifier characters only.
pub open spec fn is_valid_id(s: Seq<char>) -> bool {
    &&& s.len() > 0
    &&& byte_len(s) <= 64
    &&& forall|i: int| 0 <= i < s.len() ==> is_id_char(#[trigger] s[i])
}

/// The message that explains why `value` is not a valid identifier of the
/// kind `name`.
pub open spec fn id_error_message(name: Seq<char>, value: Seq<char>) -> Seq<char> {
    if value.len() == 0 || byte_len(value) > 64 {
        name + " must be 1-64 characters, got "@ + text::decimal(byte_len(value))
    } else {
        name
            + " contains invalid characters: only lowercase ASCII letters, digits, '.', '_', '-' are allowed"@
    }
}

fn char_is_id_char(c: char) -> (r: bool)
    ensures
        r == is_id_char(c),
{
    ('a' <= c && c <= 'z') || ('0' <= c && c <= '9') || c == '.' || c == '_' || c == '-'
}

/// Checks that `value` is a valid identifier of the kind `name`.
pub fn validate_id(name: &str, value: &str) -> (r: Result<(), IdParseError>)
    ensures
        r is Ok <==> is_valid_id(value@),
        r matches Err(e) ==> e.message@ == id_error_message(name@, value@),
{
    let len = value.len();
    if value.is_empty() || len > 64 {
        return Err(
            IdParseError {
                message: concat3(name, " must be 1-64 characters, got ", u64_to_decimal(len as u64).as_str()),
            },
        );
    }
    let cs = chars_of(value);
    let mut i: usize = 0;
    while i < cs.len()
        invariant
            cs@ == value@,
            value@.len() > 0,
            byte_len(value@) <= 64,
            i <= cs@.len(),
            forall|k: int| 0 <= k < i ==> is_id_char(#[trigger] cs@[k]),
        decreases cs@.len() - i,
    {
        if !char_is_id_char(cs[i]) {
            let mut message = String::from_str(name);
            message.append(
                " contains invalid characters: only lowercase ASCII letters, digits, '.', '_', '-' are allowed",
            );
            return Err(IdParseError { message });
        }
        i = i + 1;
    }
    Ok(())
}


/// The identifier of a monitored target.
#[derive(Debug, PartialEq, Eq, Hash)]
pub struct TargetId(String);

impl View for TargetId {
    type V = Seq<char>;

    closed spec fn view(&self) -> Seq<char> {
        self.0@
    }
}

impl TargetId {
    /// A TargetId holding `value`, which must be a valid identifier.
    pub fn new(value: &str) -> (r: Result<Self, IdParseError>)
        ensures
            r is Ok <==> is_valid_id(value@),
            r matches Ok(id) ==> id@ == value@,
            r matches Err(e) ==> e.message@ == id_error_message("TargetId"@, value@),
    {
        validate_id("TargetId", value)?;
        Ok(Self(value.to_owned()))
    }

    /// The identifier's text.
    pub fn as_str(&self) -> (r: &str)
        ensures
            r@ == self@,
    {
        self.0.as_str()
    }

    /// The identifier's text, as a new string.
    pub fn to_string(&self) -> (r: String)
        ensures
            r@ == self@,
    {
        self.0.clone()
    }

    /// The type's invariant: the held text is a valid identifier.
    #[verifier::type_invariant]
    closed spec fn wf(self) -> bool {
        is_valid_id(self.0@)
    }

}

impl Clone for TargetId {
    fn clone(&self) -> (r: Self)
        ensures
            r@ == self@,
    {
        proof {
            use_type_invariant(self);
        }
        TargetId(self.0.clone())
    }
}

impl std::str::FromStr for TargetId {
    type Err = IdParseError;

    fn from_str(s: &str) -> (r: Result<Self, IdParseError>)
        ensures
            r is Ok <==> is_valid_id(s@),
            r matches Ok(id) ==> id@ == s@,
            r matches Err(e) ==> e.message@ == id_error_message("TargetId"@, s@),
    {
        TargetId::new(s)
    }
}

/// The identifier of a check within a target.
#[derive(Debug, PartialEq, Eq, Hash)]
pub struct CheckId(String);

impl View for CheckId {
    type V = Seq<char>;

    closed spec fn view(&self) -> Seq<char> {
        self.0@
    }
}

impl CheckId {
    /// A CheckId holding `value`, which must be a valid identifier.
    pub fn new(value: &str) -> (r: Result<Self, IdParseError>)
        ensures
            r is Ok <==> is_valid_id(value@),
            r matches Ok(id) ==> id@ == value@,
            r matches Err(e) ==> e.message@ == id_error_message("CheckId"@, value@),
    {
        validate_id("CheckId", value)?;
        Ok(Self(value.to_owned()))
    }

    /// The identifier's text.
    pub fn as_str(&self) -> (r: &str)
        ensures
            r@ == self@,
    {
        self.0.as_str()
    }

    /// The identifier's text, as a new string.
    pub fn to_string(&self) -> (r: String)
        ensures
            r@ == self@,
    {
        self.0.clone()
    }

    /// The type's invariant: the held text is a valid identifier.
    #[verifier::type_invariant]
    closed spec fn wf(self) -> bool {
        is_valid_id(self.0@)
    }

}

impl Clone for CheckId {
    fn clone(&self) -> (r: Self)
        ensures
            r@ == self@,
    {
        proof {
            use_type_invariant(self);
        }
        CheckId(self.0.clone())
    }
}

impl std::str::FromStr for CheckId {
    type Err = IdParseError;

    fn from_str(s: &str) -> (r: Result<Self, IdParseError>)
        ensures
            r is Ok <==> is_valid_id(s@),
            r matches Ok(id) ==> id@ == s@,
            r matches Err(e) ==> e.message@ == id_error_message("CheckId"@, s@),
    {
        CheckId::new(s)
    }
}

/// The identifier of a probe profile.
#[derive(Debug, PartialEq, Eq, Hash)]
pub struct ProfileId(String);

impl View for ProfileId {
    type V = Seq<char>;

    closed spec fn view(&self) -> Seq<char> {
        self.0@
    }
}

impl ProfileId {
    /// A ProfileId holding `value`, which must be a valid identifier.
    pub fn new(value: &str) -> (r: Result<Self, IdParseError>)
        ensures
            r is Ok <==> is_valid_id(value@),
            r matches Ok(id) ==> id@ == value@,
            r matches Err(e) ==> e.message@ == id_error_message("ProfileId"@, value@),
    {
        validate_id("ProfileId", value)?;
        Ok(Self(value.to_owned()))
    }

    /// The identifier's text.
    pub fn as_str(&self) -> (r: &str)
        ensures
            r@ == self@,
    {
        self.0.as_str()
    }

    /// The identifier's text, as a new string.
    pub fn to_string(&self) -> (r: String)
        ensures
            r@ == self@,
    {
        self.0.clone()
    }

    /// The type's invariant: the held text is a valid identifier.
    #[verifier::type_invariant]
    closed spec fn wf(self) -> bool {
        is_valid_id(self.0@)
    }

}

impl Clone for ProfileId {
    fn clone(&self) -> (r: Self)
        ensures
            r@ == self@,
    {
        proof {
            use_type_invariant(self);
        }
        ProfileId(self.0.clone())
    }
}

impl std::str::FromStr for ProfileId {
    type Err = IdParseError;

    fn from_str(s: &str) -> (r: Result<Self, IdParseError>)
        ensures
            r is Ok <==> is_valid_id(s@),
            r matches Ok(id) ==> id@ == s@,
            r matches Err(e) ==> e.message@ == id_error_message("ProfileId"@, s@),
    {
        ProfileId::new(s)
    }
}

/// The identifier of an alert rule.
#[derive(Debug, PartialEq, Eq, Hash)]
pub struct RuleId(String);

impl View for RuleId {
    type V = Seq<char>;

    closed spec fn view(&self) -> Seq<char> {
        self.0@
    }
}

impl RuleId {
    /// A RuleId holding `value`, which must be a valid identifier.
    pub fn new(value: &str) -> (r: Result<Self, IdParseError>)
        ensures
            r is Ok <==> is_valid_id(value@),
            r matches Ok(id) ==> id@ == value@,
            r matches Err(e) ==> e.message@ == id_error_message("RuleId"@, value@),
    {
        validate_id("RuleId", value)?;
        Ok(Self(value.to_owned()))
    }

    /// The identifier's text.
    pub fn as_str(&self) -> (r: &str)
        ensures
            r@ == self@,
    {
        self.0.as_str()
    }

    /// The identifier's text, as a new string.
    pub fn to_string(&self) -> (r: String)
        ensures
            r@ == self@,
    {
        self.0.clone()
    }

    /// The type's invariant: the held text is a valid identifier.
    #[verifier::type_invariant]
    closed spec fn wf(self) -> bool {
        is_valid_id(self.0@)
    }

}

impl Clone for RuleId {
    fn clone(&self) -> (r: Self)
        ensures
            r@ == self@,
    {
        proof {
            use_type_invariant(self);
        }
        RuleId(self.0.clone())
    }
}

impl std::str::FromStr for RuleId {
    type Err = IdParseError;

    fn from_str(s: &str) -> (r: Result<Self, IdParseError>)
        ensures
            r is Ok <==> is_valid_id(s@),
            r matches Ok(id) ==> id@ == s@,
            r matches Err(e) ==> e.message@ == id_error_message("RuleId"@, s@),
    {
        RuleId::new(s)
    }
}

/// The identifier of a notifier.
#[derive(Debug, PartialEq, Eq, Hash)]
pub struct NotifierId(String);

impl View for NotifierId {
    type V = Seq<char>;

    closed spec fn view(&self) -> Seq<char> {
        self.0@
    }
}

impl NotifierId {
    /// A NotifierId holding `value`, which must be a valid identifier.
    pub fn new(value: &str) -> (r: Result<Self, IdParseError>)
        ensures
            r is Ok <==> is_valid_id(value@),
            r matches Ok(id) ==> id@ == value@,
            r matches Err(e) ==> e.message@ == id_error_message("NotifierId"@, value@),
    {
        validate_id("NotifierId", value)?;
        Ok(Self(value.to_owned()))
    }

    /// The identifier's text.
    pub fn as_str(&self) -> (r: &str)
        ensures
            r@ == self@,
    {
        self.0.as_str()
    }

    /// The identifier's text, as a new string.
    pub fn to_string(&self) -> (r: String)
        ensures
            r@ == self@,
    {
        self.0.clone()
    }

    /// The type's invariant: the held text is a valid identifier.
    #[verifier::type_invariant]
    closed spec fn wf(self) -> bool {
        is_valid_id(self.0@)
    }

}

impl Clone for NotifierId {
    fn clone(&self) -> (r: Self)
        ensures
            r@ == self@,
    {
        proof {
            use_type_invariant(self);
        }
        NotifierId(self.0.clone())
    }
}

impl std::str::FromStr for NotifierId {
    type Err = IdParseError;

    fn from_str(s: &str) -> (r: Result<Self, IdParseError>)
        ensures
            r is Ok <==> is_valid_id(s@),
            r matches Ok(id) ==> id@ == s@,
            r matches Err(e) ==> e.message@ == id_error_message("NotifierId"@, s@),
    {
        NotifierId::new(s)
    }
}

/// The identifier of an observer.
#[derive(Debug, PartialEq, Eq, Hash)]
pub struct ObserverId(String);

impl View for ObserverId {
    type V = Seq<char>;

    closed spec fn view(&self) -> Seq<char> {
        self.0@
    }
}

impl ObserverId {
    /// A ObserverId holding `value`, which must be a valid identifier.
    pub fn new(value: &str) -> (r: Result<Self, IdParseError>)
        ensures
            r is Ok <==> is_valid_id(value@),
            r matches Ok(id) ==> id@ == value@,
            r matches Err(e) ==> e.message@ == id_error_message("ObserverId"@, value@),
    {
        validate_id("ObserverId", value)?;
        Ok(Self(value.to_owned()))
    }

    /// The identifier's text.
    pub fn as_str(&self) -> (r: &str)
        ensures
            r@ == self@,
    {
        self.0.as_str()
    }

    /// The identifier's text, as a new string.
    pub fn to_string(&self) -> (r: String)
        ensures
            r@ == self@,
    {
        self.0.clone()
    }

    /// The type's invariant: the held text is a valid identifier.
    #[verifier::type_invariant]
    closed spec fn wf(self) -> bool {
        is_valid_id(self.0@)
    }

}

impl Clone for ObserverId {
    fn clone(&self) -> (r: Self)
        ensures
            r@ == self@,
    {
        proof {
            use_type_invariant(self);
        }
        ObserverId(self.0.clone())
    }
}

impl std::str::FromStr for ObserverId {
    type Err = IdParseError;

    fn from_str(s: &str) -> (r: Result<Self, IdParseError>)
        ensures
            r is Ok <==> is_valid_id(s@),
            r matches Ok(id) ==> id@ == s@,
            r matches Err(e) ==> e.message@ == id_error_message("ObserverId"@, s@),
    {
        ObserverId::new(s)
    }
}

/// The identifier of one revision of a check's resolved settings.
#[derive(Debug, PartialEq, Eq, Hash)]
pub struct CheckRevisionId(String);

impl View for CheckRevisionId {
    type V = Seq<char>;

    closed spec fn view(&self) -> Seq<char> {
        self.0@
    }
}

impl CheckRevisionId {
    /// A CheckRevisionId holding `value`, which must be a valid identifier.
    pub fn new(value: &str) -> (r: Result<Self, IdParseError>)
        ensures
            r is Ok <==> is_valid_id(value@),
            r matches Ok(id) ==> id@ == value@,
            r matches Err(e) ==> e.message@ == id_error_message("CheckRevisionId"@, value@),
    {
        validate_id("CheckRevisionId", value)?;
        Ok(Self(value.to_owned()))
    }

    /// The identifier's text.
    pub fn as_str(&self) -> (r: &str)
        ensures
            r@ == self@,
    {
        self.0.as_str()
    }

    /// The identifier's text, as a new string.
    pub fn to_string(&self) -> (r: String)
        ensures
            r@ == self@,
    {
        self.0.clone()
    }

    /// The type's invariant: the held text is a valid identifier.
    #[verifier::type_invariant]
    closed spec fn wf(self) -> bool {
        is_valid_id(self.0@)
    }

}

impl Clone for CheckRevisionId {
    fn clone(&self) -> (r: Self)
        ensures
            r@ == self@,
    {
        proof {
            use_type_invariant(self);
        }
        CheckRevisionId(self.0.clone())
    }
}

impl std::str::FromStr for CheckRevisionId {
    type Err = IdParseError;

    fn from_str(s: &str) -> (r: Result<Self, IdParseError>)
        ensures
            r is Ok <==> is_valid_id(s@),
            r matches Ok(id) ==> id@ == s@,
            r matches Err(e) ==> e.message@ == id_error_message("CheckRevisionId"@, s@),
    {
        CheckRevisionId::new(s)
    }
}

/// The generation of a loaded configuration, as a hash text.
#[derive(Debug, PartialEq, Eq, Hash)]
pub struct ConfigGeneration(String);

impl View for ConfigGeneration {
    type V = Seq<char>;

    closed spec fn view(&self) -> Seq<char> {
        self.0@
    }
}

impl ConfigGeneration {
    /// The generation named `value`.
    pub fn new(value: &str) -> (r: Self)
        ensures
            r@ == value@,
    {
        Self(value.to_owned())
    }

    /// The generation's text.
    pub fn as_str(&self) -> (r: &str)
        ensures
            r@ == self@,
    {
        self.0.as_str()
    }

    /// The generation's text, as a new string.
    pub fn to_string(&self) -> (r: String)
        ensures
            r@ == self@,
    {
        self.0.clone()
    }
}

impl Clone for ConfigGeneration {
    fn clone(&self) -> (r: Self)
        ensures
            r@ == self@,
    {
        ConfigGeneration(self.0.clone())
    }
}

/// The identifier of a stored round.
#[derive(Debug, Clone, Copy, PartialEq, Eq, Hash)]
pub struct RoundId(pub i64);

impl RoundId {
    /// The round identifier `value`.
    pub fn new(value: i64) -> (r: Self)
        ensures
            r.0 == value,
    {
        Self(value)
    }

    /// The identifier's number.
    pub fn value(self) -> (r: i64)
        ensures
            r == self.0,
    {
        self.0
    }
}

} // verus!
