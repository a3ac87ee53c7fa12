//! What follows a change: an audit entry and a broadcast.
//!
//! Every change that the API makes is recorded once and told to the peers once.

use crate::api::auth;
use crate::api::auth::ActorClaim;
use crate::model::audit::{AuditEntry, AuditSource, Details, DetailsView};
use crate::model::ids;
use crate::model::time;
use crate::model::time::now_ms;
use crate::proto::sync::{Delete, DeleteKind, RowView, UpsertKind};
use crate::text;
use vstd::prelude::*;

verus! {

/// What is recorded of a change.
#[derive(Debug, Clone, PartialEq, Eq)]
pub struct AuditNote {
    /// Dotted verb.
    pub action: String,
    pub target: Option<String>,
    pub details: Details,
}

/// What an [`AuditNote`] says.
pub struct NoteView {
    pub action: Seq<char>,
    pub target: Option<Seq<char>>,
    pub details: DetailsView,
}

impl View for AuditNote {
    type V = NoteView;

    open spec fn view(&self) -> NoteView {
        NoteView {
            action: self.action@,
            target: text::opt_view(self.target),
            details: self.details@,
        }
    }
}

/// A note with a target.
pub fn note(action: &str, target: &str, details: Details) -> (n: AuditNote)
    ensures
        n@ == (NoteView { action: action@, target: Some(target@), details: details@ }),
{
    AuditNote { action: text::owned(action), target: Some(text::owned(target)), details }
}

/// The audit entry for a change made now by the holder of `claim`, or else by
/// the node itself.
pub fn audit(note: AuditNote, claim: &ActorClaim, node_id: &str) -> (e: AuditEntry)
    ensures
        ids::is_fresh(e.id.0),
        time::is_reading(e.ts),
        e.ts >= 0,
        e.actor@ == auth::resolved(claim@, node_id@),
        e.action@ == note@.action,
        text::opt_view(e.target) == note@.target,
        e.details@ == note@.details,
        e.source == AuditSource::Api,
{
    audit_at(note, claim, node_id, now_ms())
}

/// The audit entry for a change made at `ts` by the holder of `claim`, or else by
/// the node itself.
pub fn audit_at(note: AuditNote, claim: &ActorClaim, node_id: &str, ts: i64) -> (e: AuditEntry)
    ensures
        ids::is_fresh(e.id.0),
        e.ts == ts,
        e.actor@ == auth::resolved(claim@, node_id@),
        e.action@ == note@.action,
        text::opt_view(e.target) == note@.target,
        e.details@ == note@.details,
        e.source == AuditSource::Api,
{
    let actor = claim.resolve_owned(node_id);
    let entry = AuditEntry::new(
        ts,
        actor.as_str(),
        note.action.as_str(),
        AuditSource::Api,
    ).with_details(note.details);
    match note.target {
        Some(t) => entry.with_target(t.as_str()),
        None => entry,
    }
}

/// What the peers are told of a change.
#[derive(Debug, Clone, PartialEq, Eq)]
pub enum Broadcast {
    /// A row as it is now.
    Upsert(UpsertKind),
    /// A row went.
    Delete(DeleteKind),
}

/// What a [`Broadcast`] says.
pub enum BroadcastView {
    Upsert(RowView),
    Delete(DeleteKind),
}

impl View for Broadcast {
    type V = BroadcastView;

    open spec fn view(&self) -> BroadcastView {
        match *self {
            Broadcast::Upsert(k) => BroadcastView::Upsert(k@),
            Broadcast::Delete(k) => BroadcastView::Delete(k),
        }
    }
}

/// The deletion that is broadcast now.
pub fn deletion(kind: DeleteKind, node_id: &str) -> (d: Delete)
    ensures
        d.kind == kind,
        time::is_reading(d.updated_at),
        d.updated_at >= 0,
        d.origin_node@ == node_id@,
{
    deletion_at(kind, node_id, now_ms())
}

/// The deletion that is broadcast at `now`.
pub fn deletion_at(kind: DeleteKind, node_id: &str, now: i64) -> (d: Delete)
    ensures
        d.kind == kind,
        d.updated_at == now,
        d.origin_node@ == node_id@,
{
    Delete { kind, updated_at: now, origin_node: text::owned(node_id) }
}

/// What follows a change that was made.
#[derive(Debug, Clone, PartialEq, Eq)]
pub struct Mutation {
    /// HTTP status of the answer.
    pub status: u16,
    pub note: AuditNote,
    pub broadcast: Broadcast,
}

/// What a [`Mutation`] says.
pub struct MutationView {
    pub status: u16,
    pub note: NoteView,
    pub broadcast: BroadcastView,
}

impl View for Mutation {
    type V = MutationView;

    open spec fn view(&self) -> MutationView {
        MutationView { status: self.status, note: self.note@, broadcast: self.broadcast@ }
    }
}

/// Status of an answer with a body.
pub const OK: u16 = 200;

/// Status of an answer with a new resource.
pub const CREATED: u16 = 201;

/// Status of an answer without a body.
pub const NO_CONTENT: u16 = 204;

/// `name:item`, the target of a change inside a channel.
pub open spec fn scoped(name: Seq<char>, item: Seq<char>) -> Seq<char> {
    name + ":"@ + item
}

/// `name:item`, the target of a change inside a channel.
pub fn scoped_target(name: &str, item: &str) -> (s: String)
    ensures
        s@ == scoped(name@, item@),
{
    let a = text::concat(name, ":");
    text::concat(a.as_str(), item)
}

} // verus!
