//! Audit log records.
//!
//! Every API mutation, in-channel admin action and mesh-driven change writes
//! one [`AuditEntry`]. Audit rows are not replicated: each node records what it
//! did itself.

use crate::model::ids;
use crate::model::ids::AuditId;
use crate::text;
use vstd::prelude::*;

verus! {

/// One value in an entry's details.
#[derive(Debug, Clone, PartialEq, Eq)]
pub enum DetailValue {
    Text(String),
    Number(i64),
}

/// What a [`DetailValue`] says.
pub enum DetailView {
    Text(Seq<char>),
    Number(i64),
}

impl View for DetailValue {
    type V = DetailView;

    open spec fn view(&self) -> DetailView {
        match *self {
            DetailValue::Text(s) => DetailView::Text(s@),
            DetailValue::Number(n) => DetailView::Number(n),
        }
    }
}

/// What an action says about itself: nothing, a list of named values, or anything
/// else that can be said in JSON. The first two are written as JSON `null` and as a
/// JSON object.
#[derive(Debug, Clone, PartialEq, Eq)]
pub enum Details {
    Null,
    Fields(Vec<(String, DetailValue)>),
    /// A JSON value, as its text.
    Json(String),
}

/// What [`Details`] say.
pub enum DetailsView {
    Null,
    Fields(Seq<(Seq<char>, DetailView)>),
    Json(Seq<char>),
}

/// The views of a list of named values.
pub open spec fn field_views(v: Seq<(String, DetailValue)>) -> Seq<(Seq<char>, DetailView)> {
    Seq::new(v.len(), |i: int| (v[i].0@, v[i].1@))
}

impl View for Details {
    type V = DetailsView;

    open spec fn view(&self) -> DetailsView {
        match *self {
            Details::Null => DetailsView::Null,
            Details::Fields(v) => DetailsView::Fields(field_views(v@)),
            Details::Json(t) => DetailsView::Json(t@),
        }
    }
}

/// Details with one named text.
pub open spec fn text_field(key: Seq<char>, value: Seq<char>) -> DetailsView {
    DetailsView::Fields(seq![(key, DetailView::Text(value))])
}

/// The first value named `key`.
pub open spec fn field_named(fs: Seq<(Seq<char>, DetailView)>, key: Seq<char>) -> Option<DetailView>
    decreases fs.len(),
{
    if fs.len() == 0 {
        None
    } else if fs[0].0 == key {
        Some(fs[0].1)
    } else {
        field_named(fs.drop_first(), key)
    }
}

impl Details {
    /// Details with one named text.
    pub fn text(key: &str, value: &str) -> (d: Self)
        ensures
            d@ == text_field(key@, value@),
    {
        let mut v: Vec<(String, DetailValue)> = Vec::new();
        v.push((text::owned(key), DetailValue::Text(text::owned(value))));
        assert(field_views(v@) =~= seq![(key@, DetailView::Text(value@))]);
        Details::Fields(v)
    }

    /// Details with one named number.
    pub fn number(key: &str, value: i64) -> (d: Self)
        ensures
            d@ == DetailsView::Fields(seq![(key@, DetailView::Number(value))]),
    {
        let mut v: Vec<(String, DetailValue)> = Vec::new();
        v.push((text::owned(key), DetailValue::Number(value)));
        assert(field_views(v@) =~= seq![(key@, DetailView::Number(value))]);
        Details::Fields(v)
    }

    /// Details with two named texts.
    pub fn texts(key1: &str, value1: &str, key2: &str, value2: &str) -> (d: Self)
        ensures
            d@ == DetailsView::Fields(
                seq![(key1@, DetailView::Text(value1@)), (key2@, DetailView::Text(value2@))],
            ),
    {
        let mut v: Vec<(String, DetailValue)> = Vec::new();
        v.push((text::owned(key1), DetailValue::Text(text::owned(value1))));
        v.push((text::owned(key2), DetailValue::Text(text::owned(value2))));
        assert(field_views(v@) =~= seq![
            (key1@, DetailView::Text(value1@)),
            (key2@, DetailView::Text(value2@)),
        ]);
        Details::Fields(v)
    }

    /// The first value named `key`. JSON text is not looked into.
    pub fn get(&self, key: &str) -> (r: Option<&DetailValue>)
        ensures
            (match r {
                Some(v) => Some(v@),
                None => None,
            }) == match self@ {
                DetailsView::Null | DetailsView::Json(_) => None,
                DetailsView::Fields(fs) => field_named(fs, key@),
            },
    {
        match self {
            Details::Null | Details::Json(_) => None,
            Details::Fields(v) => {
                let ghost fs = field_views(v@);
                let mut i: usize = 0;
                assert(fs.skip(0) =~= fs);
                while i < v.len()
                    invariant
                        i <= v.len(),
                        fs == field_views(v@),
                        self@ == DetailsView::Fields(fs),
                        field_named(fs, key@) == field_named(fs.skip(i as int), key@),
                    decreases v.len() - i,
                {
                    assert(fs.skip(i as int).drop_first() =~= fs.skip(i + 1));
                    if text::str_eq(v[i].0.as_str(), key) {
                        return Some(&v[i].1);
                    }
                    i = i + 1;
                }
                None
            },
        }
    }
}

/// Origin of an audit entry.
#[derive(Debug, Clone, Copy, PartialEq, Eq, Structural)]
pub enum AuditSource {
    /// HTTP admin API.
    Api,
    /// In-channel admin command or other IRC-driven action.
    Irc,
    /// Mutation arriving from a mesh peer.
    Mesh,
    /// Daemon internals.
    System,
}

/// The name of a source.
pub open spec fn source_name(s: AuditSource) -> Seq<char> {
    match s {
        AuditSource::Api => "api"@,
        AuditSource::Irc => "irc"@,
        AuditSource::Mesh => "mesh"@,
        AuditSource::System => "system"@,
    }
}

/// The name of a source, in lower case.
pub fn audit_source_str(source: AuditSource) -> (s: &'static str)
    ensures
        s@ == source_name(source),
{
    match source {
        AuditSource::Api => "api",
        AuditSource::Irc => "irc",
        AuditSource::Mesh => "mesh",
        AuditSource::System => "system",
    }
}

/// The source with a name. Unknown names count as daemon internals.
pub fn audit_source_of(name: &str) -> (s: AuditSource)
    ensures
        s == (if name@ == "api"@ {
            AuditSource::Api
        } else if name@ == "irc"@ {
            AuditSource::Irc
        } else if name@ == "mesh"@ {
            AuditSource::Mesh
        } else {
            AuditSource::System
        }),
{
    if text::str_eq(name, "api") {
        AuditSource::Api
    } else if text::str_eq(name, "irc") {
        AuditSource::Irc
    } else if text::str_eq(name, "mesh") {
        AuditSource::Mesh
    } else {
        AuditSource::System
    }
}

/// One audit log entry.
#[derive(Debug, Clone, PartialEq, Eq)]
pub struct AuditEntry {
    pub id: AuditId,
    /// Unix milliseconds.
    pub ts: i64,
    /// Who acted: a user handle, a node id, or `system`.
    pub actor: String,
    /// Dotted verb (`user.upsert`, `mask.add`).
    pub action: String,
    /// Optional target identifier.
    pub target: Option<String>,
    /// What the action says about itself.
    pub details: Details,
    /// How the action arrived.
    pub source: AuditSource,
}

impl AuditEntry {
    /// An entry with a fresh id, no target and null details.
    #[must_use]
    pub fn new(ts: i64, actor: &str, action: &str, source: AuditSource) -> (e: Self)
        ensures
            ids::is_fresh(e.id.0),
            e.ts == ts,
            e.actor@ == actor@,
            e.action@ == action@,
            e.target is None,
            e.details@ == DetailsView::Null,
            e.source == source,
    {
        AuditEntry {
            id: AuditId::new(),
            ts,
            actor: text::owned(actor),
            action: text::owned(action),
            target: None,
            details: Details::Null,
            source,
        }
    }

    /// The entry with a target.
    #[must_use]
    pub fn with_target(self, target: &str) -> (e: Self)
        ensures
            e.target matches Some(t) && t@ == target@,
            e == (AuditEntry { target: e.target, ..self }),
    {
        AuditEntry { target: Some(text::owned(target)), ..self }
    }

    /// The entry with details.
    #[must_use]
    pub fn with_details(self, details: Details) -> (e: Self)
        ensures
            e == (AuditEntry { details, ..self }),
    {
        AuditEntry { details, ..self }
    }
}

/// Naming a source and reading the name back gives the same source.
pub proof fn source_names_are_distinct(a: AuditSource, b: AuditSource)
    ensures
        source_name(a) == source_name(b) <==> a == b,
{
    reveal_strlit("api");
    reveal_strlit("irc");
    reveal_strlit("mesh");
    reveal_strlit("system");
    assert("api"@[0] == 'a');
    assert("irc"@[0] == 'i');
    assert("mesh"@[0] == 'm');
    assert("system"@[0] == 's');
}

} // verus!
