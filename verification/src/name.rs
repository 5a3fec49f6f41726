//! Validated identifiers: the keys of platforms, layers, installers and packages.

use crate::error::ErrorKind;
use vstd::prelude::*;
use vstd::string::*;

verus! {

/// Whether `c` has the Unicode `Alphabetic` property, as `char::is_alphabetic` reports it.
pub uninterp spec fn alphabetic(c: char) -> bool;

/// Whether `c` is alphabetic or numeric in Unicode's sense, as `char::is_alphanumeric` reports it.
pub uninterp spec fn alphanumeric(c: char) -> bool;

/// A character that may begin a name.
pub open spec fn valid_first_char(c: char) -> bool {
    alphabetic(c)
}

/// A character that may follow the first one in a name.
pub open spec fn valid_rest_char(c: char) -> bool {
    alphanumeric(c) || c == '-' || c == '_' || c == '.'
}

/// The grammar of names: not empty, an alphabetic first character, and after
/// it only alphanumeric characters, `-`, `_` and `.`.
pub open spec fn valid_name(s: Seq<char>) -> bool {
    &&& s.len() > 0
    &&& valid_first_char(s[0])
    &&& forall|i: int| 1 <= i < s.len() ==> valid_rest_char(#[trigger] s[i])
}

/// What parsing `s` yields: the same text when it is a valid name, nothing otherwise.
pub open spec fn parse_name(s: Seq<char>) -> Option<Seq<char>> {
    if valid_name(s) {
        Some(s)
    } else {
        None
    }
}

/// An identifier that is known to follow the grammar of names.
#[derive(Debug, Hash)]
pub struct Name(String);

/// Calls `char::is_alphabetic`; the result is by definition `alphabetic(c)`.
#[verifier::external_body]
fn is_alphabetic(c: char) -> (r: bool)
    ensures
        r == alphabetic(c),
{
    c.is_alphabetic()
}

fn is_valid_first_char(c: char) -> (r: bool)
    ensures
        r == valid_first_char(c),
{
    is_alphabetic(c)
}

/// Calls `char::is_alphanumeric`; the result is by definition `alphanumeric(c)`.
#[verifier::external_body]
fn is_alphanumeric(c: char) -> (r: bool)
    ensures
        r == alphanumeric(c),
{
    c.is_alphanumeric()
}

fn is_valid_rest_char(c: char) -> (r: bool)
    ensures
        r == valid_rest_char(c),
{
    is_alphanumeric(c) || c == '-' || c == '_' || c == '.'
}

impl View for Name {
    type V = Seq<char>;

    closed spec fn view(&self) -> Seq<char> {
        self.0@
    }
}

impl Name {
    #[verifier::type_invariant]
    spec fn well_formed(self) -> bool {
        valid_name(self.0@)
    }

    /// Whether `s` follows the grammar of names.
    pub fn is_valid(s: &str) -> (r: bool)
        ensures
            r == valid_name(s@),
    {
        let n: usize = s.unicode_len();
        if n == 0 {
            return false;
        }
        if !is_valid_first_char(s.get_char(0)) {
            return false;
        }
        let mut i: usize = 1;
        while i < n
            invariant
                1 <= i <= n,
                n == s@.len(),
                forall|j: int| 1 <= j < i ==> valid_rest_char(#[trigger] s@[j]),
            decreases n - i,
        {
            if !is_valid_rest_char(s.get_char(i)) {
                return false;
            }
            i = i + 1;
        }
        true
    }

    /// Parses `s` as a name, with no trimming and no change of case.
    pub fn from_str(s: &str) -> (r: Result<Name, ErrorKind>)
        ensures
            match r {
                Ok(name) => parse_name(s@) == Some(name@),
                Err(ErrorKind::InvalidName(text)) => parse_name(s@) is None && text@ == s@,
                Err(_) => false,
            },
    {
        if Name::is_valid(s) {
            Ok(Name(String::from_str(s)))
        } else {
            Err(ErrorKind::InvalidName(String::from_str(s)))
        }
    }

    /// The text of the name.
    pub fn as_str(&self) -> (r: &str)
        ensures
            r@ == self@,
            valid_name(r@),
    {
        proof {
            use_type_invariant(self);
        }
        self.0.as_str()
    }

    /// The text of the name, as an owned string.
    pub fn to_string(&self) -> (r: String)
        ensures
            r@ == self@,
            valid_name(r@),
    {
        proof {
            use_type_invariant(self);
        }
        self.0.clone()
    }
}

impl Clone for Name {
    fn clone(&self) -> (r: Self)
        ensures
            r == *self,
    {
        proof {
            use_type_invariant(self);
        }
        Name(self.0.clone())
    }
}

impl PartialEq for Name {
    fn eq(&self, other: &Name) -> (r: bool) {
        self.0 == other.0
    }
}

impl Eq for Name {}

impl vstd::std_specs::cmp::PartialEqSpecImpl for Name {
    open spec fn obeys_eq_spec() -> bool {
        true
    }

    open spec fn eq_spec(&self, other: &Name) -> bool {
        self@ == other@
    }
}

impl std::str::FromStr for Name {
    type Err = ErrorKind;

    /// Parses `s` as a name, as the function of the same name on `Name` does.
    fn from_str(s: &str) -> (r: Result<Name, ErrorKind>)
        ensures
            match r {
                Ok(name) => parse_name(s@) == Some(name@),
                Err(ErrorKind::InvalidName(text)) => parse_name(s@) is None && text@ == s@,
                Err(_) => false,
            },
    {
        Name::from_str(s)
    }
}

/// A name that is written out and parsed again is the same name.
pub proof fn lemma_name_round_trip(name: Name)
    requires
        valid_name(name@),
    ensures
        parse_name(name@) == Some(name@),
{
}

/// Text that breaks the grammar of names does not parse: the empty text, and
/// any text with a first character that is not alphabetic or a later
/// character that is neither alphanumeric nor one of `-`, `_`, `.`.
pub proof fn lemma_invalid_text_is_rejected(s: Seq<char>)
    requires
        s.len() == 0 || !valid_first_char(s[0]) || exists|i: int|
            1 <= i < s.len() && !valid_rest_char(#[trigger] s[i]),
    ensures
        parse_name(s) is None,
{
}

} // verus!
