//! The names in a certificate.
//!
//! A node goes by the first domain among the alternative names of its
//! certificate, or else by its common name; an operator goes by the common name.

use crate::text;
use crate::views;
use vstd::prelude::*;

verus! {

/// An alternative name of a certificate's holder.
#[derive(Debug, Clone, PartialEq, Eq)]
pub enum AlternativeName {
    /// A domain.
    Dns(String),
    /// Anything else.
    Other,
}

/// What an [`AlternativeName`] says.
pub enum AlternativeView {
    Dns(Seq<char>),
    Other,
}

impl View for AlternativeName {
    type V = AlternativeView;

    open spec fn view(&self) -> AlternativeView {
        match *self {
            AlternativeName::Dns(s) => AlternativeView::Dns(s@),
            AlternativeName::Other => AlternativeView::Other,
        }
    }
}

/// A text in a certificate, by the kind of its encoding.
#[derive(Debug, Clone, PartialEq, Eq)]
pub enum NameText {
    Utf8(String),
    Printable(String),
    Ia5(String),
    /// An encoding that is not read as text.
    Other,
}

/// What a [`NameText`] says.
pub enum NameTextView {
    Utf8(Seq<char>),
    Printable(Seq<char>),
    Ia5(Seq<char>),
    Other,
}

impl View for NameText {
    type V = NameTextView;

    open spec fn view(&self) -> NameTextView {
        match *self {
            NameText::Utf8(s) => NameTextView::Utf8(s@),
            NameText::Printable(s) => NameTextView::Printable(s@),
            NameText::Ia5(s) => NameTextView::Ia5(s@),
            NameText::Other => NameTextView::Other,
        }
    }
}

impl NameTextView {
    /// The text, if its encoding is one that is read.
    pub open spec fn readable(self) -> Option<Seq<char>> {
        match self {
            NameTextView::Utf8(s) => Some(s),
            NameTextView::Printable(s) => Some(s),
            NameTextView::Ia5(s) => Some(s),
            NameTextView::Other => None,
        }
    }
}

/// The names in a certificate.
#[derive(Debug, Clone, PartialEq, Eq)]
pub struct CertNames {
    pub alternatives: Vec<AlternativeName>,
    pub common_name: Option<NameText>,
}

/// What [`CertNames`] say.
pub struct CertNamesView {
    pub alternatives: Seq<AlternativeView>,
    pub common_name: Option<NameTextView>,
}

impl CertNamesView {
    /// The common name, if there is one that can be read.
    pub open spec fn readable_name(self) -> Option<Seq<char>> {
        match self.common_name {
            Some(t) => t.readable(),
            None => None,
        }
    }
}

impl View for CertNames {
    type V = CertNamesView;

    open spec fn view(&self) -> CertNamesView {
        CertNamesView {
            alternatives: views::list(self.alternatives@),
            common_name: views::optional(self.common_name),
        }
    }
}

/// The names in a certificate in DER form, if it is one.
pub uninterp spec fn names_in(der: Seq<u8>) -> Option<CertNamesView>;

/// `rcgen::CertificateParams::from_ca_cert_der`, which takes any certificate: the
/// domains among `subject_alt_names`, each in its place, and the common name with the
/// kind of its encoding. Its result, or that it fails, is a function of the bytes
/// alone.
#[verifier::external_body]
pub(crate) fn read_names(der: &[u8]) -> (r: Option<CertNames>)
    ensures
        views::optional(r) == names_in(der@),
{
    let p = rcgen::CertificateParams::from_ca_cert_der(&der.into()).ok()?;
    let alternatives = p.subject_alt_names.iter().map(|name| match name {
        rcgen::SanType::DnsName(s) => AlternativeName::Dns(s.as_str().to_owned()),
        _ => AlternativeName::Other,
    }).collect();
    let common_name = p.distinguished_name.get(&rcgen::DnType::CommonName).map(|value| match value {
        rcgen::DnValue::Utf8String(s) => NameText::Utf8(s.clone()),
        rcgen::DnValue::PrintableString(s) => NameText::Printable(s.as_str().to_owned()),
        rcgen::DnValue::Ia5String(s) => NameText::Ia5(s.as_str().to_owned()),
        _ => NameText::Other,
    });
    Some(CertNames { alternatives, common_name })
}

/// The domains among alternative names, in order.
pub open spec fn domains(l: Seq<AlternativeView>) -> Seq<Seq<char>>
    decreases l.len(),
{
    if l.len() == 0 {
        Seq::empty()
    } else {
        match l[0] {
            AlternativeView::Dns(s) => seq![s] + domains(l.drop_first()),
            AlternativeView::Other => domains(l.drop_first()),
        }
    }
}

/// The node that a certificate with these names is for: the first domain, or else
/// the common name.
pub open spec fn node_named(n: CertNamesView) -> Option<Seq<char>> {
    if domains(n.alternatives).len() > 0 {
        Some(domains(n.alternatives)[0])
    } else {
        n.readable_name()
    }
}

/// The node that a certificate is for, if it is one and names a node.
pub open spec fn node_in(der: Seq<u8>) -> Option<Seq<char>> {
    match names_in(der) {
        Some(n) => node_named(n),
        None => None,
    }
}

/// The common name in a certificate, if it is one and has one that can be read.
pub open spec fn common_name_in(der: Seq<u8>) -> Option<Seq<char>> {
    match names_in(der) {
        Some(n) => n.readable_name(),
        None => None,
    }
}

/// The common name among these names, if there is one that can be read.
pub fn common_name_of(names: &CertNames) -> (r: Option<String>)
    ensures
        text::opt_view(r) == names@.readable_name(),
{
    match &names.common_name {
        Some(NameText::Utf8(s)) => Some(s.clone()),
        Some(NameText::Printable(s)) => Some(s.clone()),
        Some(NameText::Ia5(s)) => Some(s.clone()),
        Some(NameText::Other) => None,
        None => None,
    }
}

/// The node that a certificate with these names is for.
pub fn node_of(names: &CertNames) -> (r: Option<String>)
    ensures
        text::opt_view(r) == node_named(names@),
{
    let ghost all = names@.alternatives;
    let mut i: usize = 0;
    assert(all.skip(0) =~= all);
    while i < names.alternatives.len()
        invariant
            i <= names.alternatives.len(),
            all == names@.alternatives,
            domains(all) == domains(all.skip(i as int)),
        decreases names.alternatives.len() - i,
    {
        assert(all.skip(i as int)[0] == names.alternatives@[i as int]@);
        assert(all.skip(i as int).drop_first() =~= all.skip(i + 1));
        if let AlternativeName::Dns(s) = &names.alternatives[i] {
            assert(domains(all)[0] == s@);
            return Some(s.clone());
        }
        i = i + 1;
    }
    assert(domains(all).len() == 0);
    common_name_of(names)
}

/// The node that a certificate is for: the first domain among its alternative
/// names, or else its common name.
pub fn cert_node_id(der: &[u8]) -> (r: Option<String>)
    ensures
        text::opt_view(r) == node_in(der@),
{
    match read_names(der) {
        Some(names) => node_of(&names),
        None => None,
    }
}

/// The common name in a certificate.
pub fn cert_subject_cn(der: &[u8]) -> (r: Option<String>)
    ensures
        text::opt_view(r) == common_name_in(der@),
{
    match read_names(der) {
        Some(names) => common_name_of(&names),
        None => None,
    }
}

} // verus!
