//! Which names and dates can be written into a certificate.
//!
//! A certificate that was read may hold names and dates that cannot be written
//! again: object identifiers that no certificate can carry, texts with characters
//! that their encoding does not have, dates beyond their encoding's years. What
//! can be written is decided here, on plain values.

use crate::text;
use crate::views;
use rcgen::{DnType, DnValue, GeneralSubtree};
use vstd::prelude::*;

verus! {

/// Unix seconds at the start of the year 1950, where two-digit years start.
pub const TWO_DIGITS_START: i64 = -631_152_000;

/// Unix seconds at the start of the year 2050, where two-digit years end.
pub const TWO_DIGITS_END: i64 = 2_524_608_000;

/// Unix seconds at the start of the year 0.
pub const YEAR_ZERO: i64 = -62_167_219_200;

/// Unix seconds at the start of the year 10000.
pub const YEAR_TEN_THOUSAND: i64 = 253_402_300_800;

/// The largest second arc of an object identifier.
pub const SECOND_ARC_END: u64 = 18_446_744_073_709_551_535;

/// One part of a name.
#[derive(Debug, Clone, PartialEq, Eq)]
pub struct NamePart {
    /// Its object identifier, where it is none that the encoder knows by name.
    pub identifier: Option<Vec<u64>>,
    /// Its text, where that is a `PrintableString`.
    pub printable: Option<String>,
    /// Whether its text is a `Utf8String`.
    pub utf8: bool,
}

/// What a [`NamePart`] holds.
pub struct PartView {
    pub identifier: Option<Seq<u64>>,
    pub printable: Option<Seq<char>>,
    pub utf8: bool,
}

impl View for NamePart {
    type V = PartView;

    open spec fn view(&self) -> PartView {
        PartView {
            identifier: views::optional(self.identifier),
            printable: text::opt_view(self.printable),
            utf8: self.utf8,
        }
    }
}

/// A constraint on the names that an authority may issue certificates for.
#[derive(Debug, Clone, PartialEq, Eq)]
pub enum Constraint {
    /// A mail address or a domain.
    Text(String),
    /// A distinguished name.
    Directory(Vec<NamePart>),
    /// A range of addresses.
    Address,
}

/// What a [`Constraint`] holds.
pub enum ConstraintView {
    Text(Seq<char>),
    Directory(Seq<PartView>),
    Address,
}

impl View for Constraint {
    type V = ConstraintView;

    open spec fn view(&self) -> ConstraintView {
        match *self {
            Constraint::Text(t) => ConstraintView::Text(t@),
            Constraint::Directory(d) => ConstraintView::Directory(views::list(d@)),
            Constraint::Address => ConstraintView::Address,
        }
    }
}

/// A date: Unix seconds, and the seconds by which its own clock is ahead of
/// universal time.
#[derive(Debug, Clone, Copy, PartialEq, Eq, Structural)]
pub struct Moment {
    pub unix: i64,
    pub offset: i32,
}

/// What certificate parameters hold that not every certificate can.
pub struct Shape {
    pub subject: Seq<PartView>,
    pub alternatives: Seq<PartView>,
    pub constraints: Seq<ConstraintView>,
    pub not_before: Moment,
    pub not_after: Moment,
    /// How many purposes, extensions and revocation points there are that the
    /// encoder does not know by name.
    pub extras: nat,
}

// ----- what can be written -------------------------------------------------------

/// Whether an object identifier can be written.
pub open spec fn writes_identifier(arcs: Seq<u64>) -> bool {
    &&& arcs.len() >= 2
    &&& arcs[0] < 3
    &&& arcs[1] < SECOND_ARC_END
    &&& arcs[0] == 2 || arcs[1] < 40
}

/// Whether a part of a name can be written. A question mark is the one character
/// that is read in a `PrintableString` and cannot be written in one.
pub open spec fn writes_part(p: PartView) -> bool {
    &&& p.identifier matches Some(arcs) ==> writes_identifier(arcs)
    &&& p.printable matches Some(t) ==> !t.contains('?')
}

/// Whether all parts of a name can be written.
pub open spec fn writes_name(parts: Seq<PartView>) -> bool {
    forall|i: int| 0 <= i < parts.len() ==> writes_part(#[trigger] parts[i])
}

/// Whether all characters of a text are ASCII.
pub open spec fn is_ascii(s: Seq<char>) -> bool {
    forall|i: int| 0 <= i < s.len() ==> (#[trigger] s[i]) as int <= 127
}

/// Whether a constraint can be written.
pub open spec fn writes_constraint(c: ConstraintView) -> bool {
    match c {
        ConstraintView::Text(t) => is_ascii(t),
        ConstraintView::Directory(d) => writes_name(d),
        ConstraintView::Address => true,
    }
}

/// Whether a date can be written. One that falls into the years with two digits
/// by its own clock has to do so in universal time; any other has four digits.
pub open spec fn writes_moment(m: Moment) -> bool {
    if TWO_DIGITS_START <= m.unix + m.offset < TWO_DIGITS_END {
        TWO_DIGITS_START <= m.unix < TWO_DIGITS_END
    } else {
        YEAR_ZERO <= m.unix < YEAR_TEN_THOUSAND
    }
}

impl Shape {
    /// Whether all of it can be written.
    pub open spec fn writable(self) -> bool {
        &&& writes_name(self.subject)
        &&& writes_name(self.alternatives)
        &&& forall|i: int|
            0 <= i < self.constraints.len() ==> writes_constraint(#[trigger] self.constraints[i])
        &&& writes_moment(self.not_before)
        &&& writes_moment(self.not_after)
        &&& self.extras == 0
    }

    /// Whether it holds nothing of its own but dates: the encoder knows every part
    /// by name, the subject is UTF-8, and there are no constraints and no extras.
    pub open spec fn plain(self) -> bool {
        &&& is_plain(self.subject)
        &&& forall|i: int| 0 <= i < self.subject.len() ==> (#[trigger] self.subject[i]).utf8
        &&& is_plain(self.alternatives)
        &&& self.constraints.len() == 0
        &&& self.extras == 0
    }
}

/// Whether the encoder knows every part of a name, and none is a
/// `PrintableString`.
pub open spec fn is_plain(parts: Seq<PartView>) -> bool {
    forall|i: int|
        0 <= i < parts.len() ==> (#[trigger] parts[i]).identifier is None
            && parts[i].printable is None
}

/// Whether an object identifier can be written.
pub fn identifier_fits(arcs: &Vec<u64>) -> (b: bool)
    ensures
        b == writes_identifier(arcs@),
{
    arcs.len() >= 2 && arcs[0] < 3 && arcs[1] < SECOND_ARC_END && (arcs[0] == 2 || arcs[1] < 40)
}

/// Whether a part of a name can be written.
pub fn part_fits(p: &NamePart) -> (b: bool)
    ensures
        b == writes_part(p@),
{
    if let Some(arcs) = &p.identifier {
        if !identifier_fits(arcs) {
            return false;
        }
    }
    if let Some(t) = &p.printable {
        proof {
            text::lemma_position(t@, '?');
        }
        if text::find_char(t.as_str(), '?') < t.as_str().unicode_len() {
            return false;
        }
    }
    true
}

/// Whether all parts of a name can be written.
pub fn name_fits(parts: &Vec<NamePart>) -> (b: bool)
    ensures
        b == writes_name(views::list(parts@)),
{
    let mut i: usize = 0;
    while i < parts.len()
        invariant
            i <= parts.len(),
            forall|j: int| 0 <= j < i ==> writes_part(#[trigger] views::list(parts@)[j]),
        decreases parts.len() - i,
    {
        if !part_fits(&parts[i]) {
            assert(!writes_part(views::list(parts@)[i as int]));
            return false;
        }
        i = i + 1;
    }
    true
}

/// Whether all characters of a text are ASCII.
pub fn ascii_only(s: &str) -> (b: bool)
    ensures
        b == is_ascii(s@),
{
    let n = s.unicode_len();
    let mut i: usize = 0;
    while i < n
        invariant
            i <= n,
            n == s@.len(),
            forall|j: int| 0 <= j < i ==> (#[trigger] s@[j]) as int <= 127,
        decreases n - i,
    {
        if s.get_char(i) as u32 > 127 {
            return false;
        }
        i = i + 1;
    }
    true
}

/// Whether a constraint can be written.
pub fn constraint_fits(c: &Constraint) -> (b: bool)
    ensures
        b == writes_constraint(c@),
{
    match c {
        Constraint::Text(t) => ascii_only(t.as_str()),
        Constraint::Directory(d) => name_fits(d),
        Constraint::Address => true,
    }
}

/// Whether a date can be written.
pub fn moment_fits(m: Moment) -> (b: bool)
    ensures
        b == writes_moment(m),
{
    let local: i128 = m.unix as i128 + m.offset as i128;
    if TWO_DIGITS_START as i128 <= local && local < TWO_DIGITS_END as i128 {
        TWO_DIGITS_START <= m.unix && m.unix < TWO_DIGITS_END
    } else {
        YEAR_ZERO <= m.unix && m.unix < YEAR_TEN_THOUSAND
    }
}

/// Whether all constraints can be written.
pub fn constraints_fit(l: &Vec<Constraint>) -> (b: bool)
    ensures
        b == (forall|i: int|
            0 <= i < l@.len() ==> writes_constraint(#[trigger] views::list(l@)[i])),
{
    let mut i: usize = 0;
    while i < l.len()
        invariant
            i <= l.len(),
            forall|j: int| 0 <= j < i ==> writes_constraint(#[trigger] views::list(l@)[j]),
        decreases l.len() - i,
    {
        if !constraint_fits(&l[i]) {
            assert(!writes_constraint(views::list(l@)[i as int]));
            return false;
        }
        i = i + 1;
    }
    true
}

// ----- outside calls --------------------------------------------------------------

/// What certificate parameters of the `rcgen` crate hold that not every
/// certificate can.
pub uninterp spec fn shape(params: rcgen::CertificateParams) -> Shape;

/// The entries of `rcgen::DistinguishedName::iter` for the subject: the arcs of a
/// `CustomDnType`, the text of a `PrintableString`, and whether it is a
/// `Utf8String`.
#[verifier::external_body]
fn subject_parts(p: &rcgen::CertificateParams) -> (v: Vec<NamePart>)
    ensures
        views::list(v@) == shape(*p).subject,
{
    p.distinguished_name.iter().map(|(kind, value)| NamePart {
        identifier: match kind {
            DnType::CustomDnType(arcs) => Some(arcs.clone()),
            _ => None,
        },
        printable: match value {
            DnValue::PrintableString(s) => Some(s.as_str().to_owned()),
            _ => None,
        },
        utf8: matches!(value, DnValue::Utf8String(_)),
    }).collect()
}

/// The `subject_alt_names` of `rcgen::CertificateParams`: the arcs of an
/// `OtherName`. No alternative name is a `PrintableString` or a `Utf8String`.
#[verifier::external_body]
fn alternative_parts(p: &rcgen::CertificateParams) -> (v: Vec<NamePart>)
    ensures
        views::list(v@) == shape(*p).alternatives,
{
    p.subject_alt_names.iter().map(|name| NamePart {
        identifier: match name {
            rcgen::SanType::OtherName((arcs, _)) => Some(arcs.clone()),
            _ => None,
        },
        printable: None,
        utf8: false,
    }).collect()
}

/// The `name_constraints` of `rcgen::CertificateParams`, what is permitted first:
/// texts as they are, and distinguished names as those of a subject.
#[verifier::external_body]
fn name_constraints(p: &rcgen::CertificateParams) -> (v: Vec<Constraint>)
    ensures
        views::list(v@) == shape(*p).constraints,
{
    let all = p.name_constraints.iter().flat_map(|c| c.permitted_subtrees.iter().chain(&c.excluded_subtrees));
    all.map(|s| match s {
        GeneralSubtree::DirectoryName(n) => Constraint::Directory(n.iter().map(|(k, v)| NamePart {
            identifier: match k { DnType::CustomDnType(a) => Some(a.clone()), _ => None },
            printable: match v { DnValue::PrintableString(s) => Some(s.as_str().to_owned()), _ => None },
            utf8: matches!(v, DnValue::Utf8String(_)),
        }).collect()),
        GeneralSubtree::Rfc822Name(t) => Constraint::Text(t.clone()),
        GeneralSubtree::DnsName(t) => Constraint::Text(t.clone()),
        _ => Constraint::Address,
    }).collect()
}

/// The dates of `rcgen::CertificateParams`, by `OffsetDateTime::unix_timestamp`
/// and `OffsetDateTime::offset`.
#[verifier::external_body]
fn moments(p: &rcgen::CertificateParams) -> (r: (Moment, Moment))
    ensures
        r == (shape(*p).not_before, shape(*p).not_after),
{
    let (a, b) = (p.not_before, p.not_after);
    (
        Moment { unix: a.unix_timestamp(), offset: a.offset().whole_seconds() },
        Moment { unix: b.unix_timestamp(), offset: b.offset().whole_seconds() },
    )
}

/// Whether what certificate parameters without extras hold can be written into a
/// certificate.
pub(crate) fn params_fit(p: &rcgen::CertificateParams) -> (b: bool)
    requires
        shape(*p).extras == 0,
    ensures
        b == shape(*p).writable(),
{
    let (from, to) = moments(p);
    name_fits(&subject_parts(p)) && name_fits(&alternative_parts(p)) && constraints_fit(
        &name_constraints(p),
    ) && moment_fits(from) && moment_fits(to)
}

// ----- laws ------------------------------------------------------------------

/// What holds nothing of its own can be written, if its dates can.
pub proof fn plain_shapes_are_writable(s: Shape)
    requires
        s.plain(),
        writes_moment(s.not_before),
        writes_moment(s.not_after),
    ensures
        s.writable(),
{
}

} // verus!
