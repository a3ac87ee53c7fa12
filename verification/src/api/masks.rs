//! Requests about masks and about the audit log.

use crate::api::auth;
use crate::api::auth::ActorClaim;
use crate::api::error::{bad_request, ApiError, ApiErrorView};
use crate::api::record;
use crate::api::record::{
    note, scoped_target, Broadcast, BroadcastView, Mutation, MutationView, NoteView, CREATED,
    NO_CONTENT,
};
use crate::model::audit::{DetailView, Details, DetailsView};
use crate::model::channel::Channel;
use crate::model::ids;
use crate::model::ids::{ChannelId, MaskId};
use crate::model::mask;
use crate::model::mask::{Mask, MaskKind, NewMask, NewMaskView};
use crate::proto::sync::{DeleteKind, RowView, UpsertKind};
use crate::text;
use vstd::prelude::*;

verus! {

/// The list that a request without one means.
pub fn default_kind() -> (k: MaskKind)
    ensures
        k == MaskKind::Ban,
{
    MaskKind::Ban
}

/// A mask to be added to a channel.
#[derive(Debug, Clone, PartialEq, Eq)]
pub struct CreateChannelMaskBody {
    pub kind: MaskKind,
    pub mask: String,
    pub reason: Option<String>,
    pub set_by: Option<String>,
    pub expires_at: Option<i64>,
    pub sticky: bool,
}

/// Whether a mask can be added: one of white space only is none.
pub fn check_mask(body: &CreateChannelMaskBody) -> (r: Result<(), ApiError>)
    ensures
        if text::trimmed(body.mask@).len() == 0 {
            r matches Err(e) && e@ == ApiErrorView::BadRequest("mask must not be empty"@)
        } else {
            r is Ok
        },
{
    if text::is_empty(text::trim(body.mask.as_str())) {
        return Err(bad_request("mask must not be empty"));
    }
    Ok(())
}

/// What to write when a mask is added to a channel. Unless the request says who
/// set it, the caller did.
pub fn create_channel_mask(
    body: CreateChannelMaskBody,
    channel_id: ChannelId,
    claim: &ActorClaim,
    node_id: &str,
) -> (n: NewMask)
    ensures
        n@ == (NewMaskView {
            kind: body.kind,
            channel_id: Some(channel_id),
            mask: body.mask@,
            reason: text::opt_view(body.reason),
            set_by: match body.set_by {
                Some(s) => Some(s@),
                None => Some(auth::resolved(claim@, node_id@)),
            },
            expires_at: body.expires_at,
            sticky: body.sticky,
        }),
{
    let set_by = match body.set_by {
        Some(s) => Some(s),
        None => Some(claim.resolve_owned(node_id)),
    };
    NewMask {
        kind: body.kind,
        channel_id: Some(channel_id),
        mask: body.mask,
        reason: body.reason,
        set_by,
        expires_at: body.expires_at,
        sticky: body.sticky,
    }
}

/// The details that name a mask.
pub open spec fn mask_details(id: Seq<char>, kind: MaskKind) -> DetailsView {
    DetailsView::Fields(
        seq![
            ("id"@, DetailView::Text(id)),
            ("kind"@, DetailView::Text(mask::kind_name(kind))),
        ],
    )
}

/// What follows when a mask was added.
pub fn mask_created(chan: &Channel, written: &Mask) -> (m: Mutation)
    ensures
        m@ == (MutationView {
            status: CREATED,
            note: NoteView {
                action: "mask.add"@,
                target: Some(record::scoped(chan.name@, written.mask@)),
                details: mask_details(ids::ulid_text(written.id.0), written.kind),
            },
            broadcast: BroadcastView::Upsert(RowView::Mask(written@)),
        }),
{
    Mutation {
        status: CREATED,
        note: note(
            "mask.add",
            scoped_target(chan.name.as_str(), written.mask.as_str()).as_str(),
            Details::texts(
                "id",
                written.id.to_string().as_str(),
                "kind",
                written.kind.name(),
            ),
        ),
        broadcast: Broadcast::Upsert(UpsertKind::Mask(written.copy())),
    }
}

/// The mask identifier of a request.
pub fn parse_mask_id(id: &str) -> (r: Result<MaskId, ApiError>)
    ensures
        match ids::ulid_parsed(id@) {
            Ok(v) => r == Ok::<MaskId, ApiError>(MaskId(v)),
            Err(m) => r matches Err(e) && e@ == ApiErrorView::BadRequest("invalid mask id: "@ + m),
        },
{
    match MaskId::parse(id) {
        Ok(m) => Ok(m),
        Err(e) => Err(ApiError::BadRequest(text::concat("invalid mask id: ", e.as_str()))),
    }
}

/// What follows when the mask with the identifier text `id` was to be deleted.
pub fn delete_mask(mask: &Mask, id: &str, deleted: bool) -> (r: Result<Mutation, ApiError>)
    ensures
        if deleted {
            r matches Ok(m) && m@ == (MutationView {
                status: NO_CONTENT,
                note: NoteView {
                    action: "mask.delete"@,
                    target: Some(mask.mask@),
                    details: mask_details(id@, mask.kind),
                },
                broadcast: BroadcastView::Delete(DeleteKind::Mask { id: mask.id }),
            })
        } else {
            r matches Err(e) && e@ == ApiErrorView::NotFound
        },
{
    if !deleted {
        return Err(ApiError::NotFound);
    }
    Ok(
        Mutation {
            status: NO_CONTENT,
            note: note(
                "mask.delete",
                mask.mask.as_str(),
                Details::texts("id", id, "kind", mask.kind.name()),
            ),
            broadcast: Broadcast::Delete(DeleteKind::Mask { id: mask.id }),
        },
    )
}

// ----- audit log ----------------------------------------------------------------

/// Most audit entries in one answer.
pub const MAX_AUDIT_LIMIT: usize = 1000;

/// How many audit entries a request without a number means.
pub fn default_audit_limit() -> (n: usize)
    ensures
        n == 100,
{
    100
}

/// How many audit entries a request gets at most.
pub fn audit_limit(asked: usize) -> (n: usize)
    ensures
        n == if asked <= MAX_AUDIT_LIMIT {
            asked
        } else {
            MAX_AUDIT_LIMIT
        },
{
    if asked <= MAX_AUDIT_LIMIT {
        asked
    } else {
        MAX_AUDIT_LIMIT
    }
}

} // verus!
