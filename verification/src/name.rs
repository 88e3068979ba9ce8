//! Domain names in uncompressed wire format, and the presentation syntax
//! that target strings are read in.

use core::str::FromStr;
use domain::base::name::UncertainName;
use vstd::prelude::*;

verus! {

/// A domain name as the octets of its uncompressed wire format.
#[derive(Debug, PartialEq, Eq)]
pub struct DomainName {
    pub octets: Vec<u8>,
}

impl View for DomainName {
    type V = Seq<u8>;

    open spec fn view(&self) -> Seq<u8> {
        self.octets@
    }
}

impl Clone for DomainName {
    fn clone(&self) -> (r: Self)
        ensures
            r@ == self@,
    {
        DomainName { octets: self.octets.clone() }
    }
}

/// An octet with an upper-case ASCII letter replaced by its lower-case form.
pub open spec fn fold_case(b: u8) -> u8 {
    if 65 <= b <= 90 {
        (b + 32) as u8
    } else {
        b
    }
}

/// Two wire-format names denote the same name: they have the same octets up
/// to the case of ASCII letters. (Label lengths are below every letter, so
/// folding them changes nothing.)
pub open spec fn same_name(a: Seq<u8>, b: Seq<u8>) -> bool {
    &&& a.len() == b.len()
    &&& forall|i: int| 0 <= i < a.len() ==> fold_case(#[trigger] a[i]) == fold_case(b[i])
}

fn fold_octet(b: u8) -> (r: u8)
    ensures
        r == fold_case(b),
{
    if 65 <= b && b <= 90 {
        b + 32
    } else {
        b
    }
}

impl DomainName {
    /// Whether `self` and `other` denote the same name.
    pub fn same_as(&self, other: &DomainName) -> (r: bool)
        ensures
            r == same_name(self@, other@),
    {
        if self.octets.len() != other.octets.len() {
            return false;
        }
        let n: usize = self.octets.len();
        let mut i: usize = 0;
        while i < n
            invariant
                n == self.octets.len(),
                n == other.octets.len(),
                i <= n,
                forall|j: int| 0 <= j < i ==> fold_case(#[trigger] self@[j]) == fold_case(other@[j]),
            decreases n - i,
        {
            if fold_octet(self.octets[i]) != fold_octet(other.octets[i]) {
                return false;
            }
            i += 1;
        }
        true
    }
}

/// White space that the presentation format of a name admits only behind a
/// backslash.
pub open spec fn is_blank(c: char) -> bool {
    c == ' ' || c == '\t' || c == '\n' || c == '\r'
}

/// The number of backslashes that stand directly before position `i`.
pub open spec fn backslash_run(text: Seq<char>, i: int) -> nat
    decreases i,
{
    if 0 < i <= text.len() && text[i - 1] == '\\' {
        backslash_run(text, i - 1) + 1
    } else {
        0
    }
}

/// The character at `i` is introduced by a backslash: an odd number of
/// backslashes stands before it.
pub open spec fn is_escaped(text: Seq<char>, i: int) -> bool {
    backslash_run(text, i) % 2 == 1
}

/// Some white space in `text` is not escaped.
pub open spec fn has_bare_blank(text: Seq<char>) -> bool {
    exists|i: int| 0 <= i < text.len() && is_blank(#[trigger] text[i]) && !is_escaped(text, i)
}

/// Scans for white space that no backslash introduces.
pub fn contains_bare_blank(text: &str) -> (r: bool)
    ensures
        r == has_bare_blank(text@),
{
    let n: usize = text.unicode_len();
    let mut i: usize = 0;
    let mut escaped: bool = false;
    while i < n
        invariant
            n == text@.len(),
            i <= n,
            escaped == is_escaped(text@, i as int),
            forall|j: int| 0 <= j < i ==> !(is_blank(#[trigger] text@[j]) && !is_escaped(text@, j)),
        decreases n - i,
    {
        let c: char = text.get_char(i);
        if !escaped && (c == ' ' || c == '\t' || c == '\n' || c == '\r') {
            return true;
        }
        proof {
            assert(backslash_run(text@, i + 1) == if c == '\\' {
                backslash_run(text@, i as int) + 1
            } else {
                0
            });
        }
        escaped = c == '\\' && !escaped;
        i += 1;
    }
    false
}

/// What `domain::base::name::UncertainName::from_str` reads from `text`:
/// whether the name is absolute, and its wire-format octets; `None` where it
/// reports an error.
pub uninterp spec fn presentation_name(text: Seq<char>) -> Option<(bool, Seq<u8>)>;

/// Calls `UncertainName::<Vec<u8>>::from_str`. Trusted: the outcome depends
/// on the text alone. The flag tells whether the absolute variant came
/// back, and the octets are those that the parsed name holds.
#[verifier::external_body]
fn read_name(text: &str) -> (r: Option<(bool, DomainName)>)
    ensures
        match r {
            Some((absolute, name)) => presentation_name(text@) == Some((absolute, name@)),
            None => presentation_name(text@) is None,
        },
{
    match UncertainName::<Vec<u8>>::from_str(text) {
        Ok(UncertainName::Absolute(name)) => Some((true, DomainName { octets: name.into_octets() })),
        Ok(UncertainName::Relative(name)) => Some((false, DomainName { octets: name.into_octets() })),
        Err(_) => None,
    }
}

/// The name a target string denotes: the text must hold no bare white space
/// and be a name in presentation format.
pub open spec fn name_literal(text: Seq<char>) -> Option<(bool, Seq<u8>)> {
    if has_bare_blank(text) {
        None
    } else {
        presentation_name(text)
    }
}

impl DomainName {
    /// Reads a name in presentation format. The flag tells whether the name
    /// is absolute.
    pub fn parse(text: &str) -> (r: Option<(bool, DomainName)>)
        ensures
            match r {
                Some((absolute, name)) => name_literal(text@) == Some((absolute, name@)),
                None => name_literal(text@) is None,
            },
    {
        if contains_bare_blank(text) {
            None
        } else {
            read_name(text)
        }
    }
}

} // verus!
