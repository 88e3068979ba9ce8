//! Classification of target strings.

use crate::ip::{ip_literal, IpAddress};
use crate::name::{name_literal, DomainName};
use vstd::prelude::*;

verus! {

/// What a target string turned out to be.
#[derive(Debug, PartialEq, Eq)]
pub enum TargetKind {
    /// An IPv4 or IPv6 literal.
    IPAddress(IpAddress),
    /// A domain name that ends in the root label.
    AbsoluteName(DomainName),
    /// A domain name that is completed along the search path.
    RelativeName(DomainName),
    /// Neither an address nor a domain name.
    Unparseable,
}

/// The mathematical value of a [`TargetKind`].
pub enum TargetKindView {
    IPAddress(IpAddress),
    AbsoluteName(Seq<u8>),
    RelativeName(Seq<u8>),
    Unparseable,
}

impl View for TargetKind {
    type V = TargetKindView;

    open spec fn view(&self) -> TargetKindView {
        match *self {
            TargetKind::IPAddress(ip) => TargetKindView::IPAddress(ip),
            TargetKind::AbsoluteName(name) => TargetKindView::AbsoluteName(name@),
            TargetKind::RelativeName(name) => TargetKindView::RelativeName(name@),
            TargetKind::Unparseable => TargetKindView::Unparseable,
        }
    }
}

impl Clone for TargetKind {
    fn clone(&self) -> (r: Self)
        ensures
            r@ == self@,
    {
        match self {
            TargetKind::IPAddress(ip) => TargetKind::IPAddress(*ip),
            TargetKind::AbsoluteName(name) => TargetKind::AbsoluteName(name.clone()),
            TargetKind::RelativeName(name) => TargetKind::RelativeName(name.clone()),
            TargetKind::Unparseable => TargetKind::Unparseable,
        }
    }
}

/// The kind of a target string: an address literal before anything else,
/// then an absolute name, then a relative one.
pub open spec fn classify_spec(text: Seq<char>) -> TargetKindView {
    match ip_literal(text) {
        Some(ip) => TargetKindView::IPAddress(ip),
        None => match name_literal(text) {
            Some((absolute, octets)) => if absolute {
                TargetKindView::AbsoluteName(octets)
            } else {
                TargetKindView::RelativeName(octets)
            },
            None => TargetKindView::Unparseable,
        },
    }
}

/// Classifies a target string. Text that is no address and no valid domain
/// name is `Unparseable`; nothing here fails.
pub fn classify(raw: &str) -> (kind: TargetKind)
    ensures
        kind@ == classify_spec(raw@),
        kind@ is IPAddress <==> ip_literal(raw@) is Some,
{
    match IpAddress::parse(raw) {
        Some(ip) => TargetKind::IPAddress(ip),
        None => match DomainName::parse(raw) {
            Some((absolute, name)) => if absolute {
                TargetKind::AbsoluteName(name)
            } else {
                TargetKind::RelativeName(name)
            },
            None => TargetKind::Unparseable,
        },
    }
}

/// A target string together with its classification.
#[derive(Debug)]
pub struct Target {
    raw: String,
    kind: TargetKind,
}

/// The mathematical value of a [`Target`].
pub struct TargetView {
    pub raw: Seq<char>,
    pub kind: TargetKindView,
}

impl View for Target {
    type V = TargetView;

    closed spec fn view(&self) -> TargetView {
        TargetView { raw: self.raw@, kind: self.kind@ }
    }
}

impl TargetView {
    /// The kind is the one that classification gives the text.
    pub open spec fn wf(self) -> bool {
        self.kind == classify_spec(self.raw)
    }
}

impl Target {
    #[verifier::type_invariant]
    spec fn classified(self) -> bool {
        self@.wf()
    }

    /// Classifies `raw` and keeps both.
    pub fn new(raw: String) -> (t: Target)
        ensures
            t@.raw == raw@,
            t@.wf(),
    {
        let kind = classify(raw.as_str());
        Target { raw, kind }
    }

    /// The string as it was supplied.
    pub fn raw(&self) -> (r: &str)
        ensures
            r@ == self@.raw,
    {
        self.raw.as_str()
    }

    /// The classification of the string.
    pub fn kind(&self) -> (r: &TargetKind)
        ensures
            r@ == self@.kind,
            self@.wf(),
    {
        proof {
            use_type_invariant(self);
        }
        &self.kind
    }
}

impl Clone for Target {
    fn clone(&self) -> (r: Self)
        ensures
            r@ == self@,
    {
        proof {
            use_type_invariant(self);
        }
        Target { raw: self.raw.clone(), kind: self.kind.clone() }
    }
}

} // verus!
