//! Requests about channels, their settings, and users' flags in them.

use crate::api::error::{bad_request, ApiError, ApiErrorView};
use crate::api::record;
use crate::api::record::{
    note, scoped_target, Broadcast, BroadcastView, Mutation, MutationView, NoteView, CREATED,
    NO_CONTENT, OK,
};
use crate::api::users;
use crate::api::users::{change_flags, read_flags};
use crate::ircd::state;
use crate::model::audit;
use crate::model::audit::{Details, DetailsView};
use crate::model::channel::{
    Channel, ChannelRecord, ChannelSettings, ChannelUserFlags, NewChannel, SettingsView,
};
use crate::model::flags;
use crate::model::flags::FlagSet;
use crate::model::ids;
use crate::model::ids::ChannelId;
use crate::model::user::User;
use crate::proto::sync::{DeleteKind, RowView, UpsertKind};
use crate::text;
use vstd::prelude::*;
use vstd::string::*;

verus! {

// ----- channels -----------------------------------------------------------------

/// Whether a channel can be made as asked.
pub fn create_channel(body: &NewChannel) -> (r: Result<(), ApiError>)
    ensures
        if state::is_channel_name(body.name@) {
            r is Ok
        } else {
            r matches Err(e) && e@ == ApiErrorView::BadRequest(
                "channel name must start with '#' or '&'"@,
            )
        },
{
    if state::names_channel(body.name.as_str()) {
        return Ok(());
    }
    Err(bad_request("channel name must start with '#' or '&'"))
}

/// The details that name a channel.
pub open spec fn channel_details(c: ChannelRecord) -> DetailsView {
    audit::text_field("id"@, ids::ulid_text(c.id.0))
}

/// What follows when a channel was made.
pub fn channel_created(chan: &Channel) -> (m: Mutation)
    ensures
        m@ == (MutationView {
            status: CREATED,
            note: NoteView {
                action: "channel.upsert"@,
                target: Some(chan.name@),
                details: channel_details(chan@),
            },
            broadcast: BroadcastView::Upsert(RowView::Channel(chan@)),
        }),
{
    Mutation {
        status: CREATED,
        note: note(
            "channel.upsert",
            chan.name.as_str(),
            Details::text("id", chan.id.to_string().as_str()),
        ),
        broadcast: Broadcast::Upsert(UpsertKind::Channel(chan.copy())),
    }
}

/// What follows when a channel was to be deleted. Where the store found nothing
/// to delete, the channel does not exist.
pub fn delete_channel(chan: &Channel, deleted: bool) -> (r: Result<Mutation, ApiError>)
    ensures
        if deleted {
            r matches Ok(m) && m@ == (MutationView {
                status: NO_CONTENT,
                note: NoteView {
                    action: "channel.delete"@,
                    target: Some(chan.name@),
                    details: channel_details(chan@),
                },
                broadcast: BroadcastView::Delete(DeleteKind::Channel { id: chan.id }),
            })
        } else {
            r matches Err(e) && e@ == ApiErrorView::NotFound
        },
{
    if !deleted {
        return Err(ApiError::NotFound);
    }
    Ok(
        Mutation {
            status: NO_CONTENT,
            note: note(
                "channel.delete",
                chan.name.as_str(),
                Details::text("id", chan.id.to_string().as_str()),
            ),
            broadcast: Broadcast::Delete(DeleteKind::Channel { id: chan.id }),
        },
    )
}

// ----- settings -----------------------------------------------------------------

/// A change to the settings of a channel. What is absent stays; `Some(None)`
/// clears.
#[derive(Debug, Clone, PartialEq, Eq)]
pub struct SettingsBody {
    pub flags: Option<String>,
    pub mode_pls: Option<String>,
    pub mode_mns: Option<String>,
    pub limit_prot: Option<Option<i32>>,
    pub key_prot: Option<Option<String>>,
    pub topic_saved: Option<Option<String>>,
}

/// Settings that manage nothing.
pub open spec fn blank_settings(id: ChannelId) -> SettingsView {
    SettingsView {
        channel_id: id,
        flags: FlagSet::of_bits(0),
        mode_pls: Seq::empty(),
        mode_mns: Seq::empty(),
        limit_prot: None,
        key_prot: None,
        topic_saved: None,
        updated_at: 0,
        origin_node: Seq::empty(),
    }
}

/// Changed settings, or why the change is refused.
pub open spec fn settings_changed(s: SettingsView, b: SettingsBody) -> Result<
    SettingsView,
    ApiErrorView,
> {
    let flags = match b.flags {
        Some(f) => users::flags_changed(0, f@),
        None => Ok(s.flags),
    };
    match flags {
        Err(e) => Err(e),
        Ok(f) => Ok(
            SettingsView {
                flags: f,
                mode_pls: match b.mode_pls {
                    Some(m) => m@,
                    None => s.mode_pls,
                },
                mode_mns: match b.mode_mns {
                    Some(m) => m@,
                    None => s.mode_mns,
                },
                limit_prot: match b.limit_prot {
                    Some(l) => l,
                    None => s.limit_prot,
                },
                key_prot: match b.key_prot {
                    Some(k) => text::opt_view(k),
                    None => s.key_prot,
                },
                topic_saved: match b.topic_saved {
                    Some(t) => text::opt_view(t),
                    None => s.topic_saved,
                },
                ..s
            },
        ),
    }
}

/// The view of a settings result.
pub open spec fn settings_view(r: Result<ChannelSettings, ApiError>) -> Result<
    SettingsView,
    ApiErrorView,
> {
    match r {
        Ok(s) => Ok(s@),
        Err(e) => Err(e@),
    }
}

/// What to write when the settings of a channel change. A channel without
/// settings starts from blank ones.
pub fn put_channel_settings(
    existing: Option<ChannelSettings>,
    channel_id: ChannelId,
    body: SettingsBody,
) -> (r: Result<ChannelSettings, ApiError>)
    ensures
        settings_view(r) == settings_changed(
            match existing {
                Some(s) => s@,
                None => blank_settings(channel_id),
            },
            body,
        ),
{
    let mut settings = match existing {
        Some(s) => s,
        None => {
            let none = FlagSet::none();
            proof {
                flags::set_is_its_bitmap(none, 0);
            }
            let s = ChannelSettings {
                channel_id,
                flags: none,
                mode_pls: String::new(),
                mode_mns: String::new(),
                limit_prot: None,
                key_prot: None,
                topic_saved: None,
                updated_at: 0,
                origin_node: String::new(),
            };
            assert(s@ == blank_settings(channel_id));
            s
        },
    };
    if let Some(f) = body.flags {
        match read_flags(f.as_str()) {
            Ok(f) => {
                settings.flags = f;
            },
            Err(e) => {
                return Err(e);
            },
        }
    }
    if let Some(m) = body.mode_pls {
        settings.mode_pls = m;
    }
    if let Some(m) = body.mode_mns {
        settings.mode_mns = m;
    }
    if let Some(l) = body.limit_prot {
        settings.limit_prot = l;
    }
    if let Some(k) = body.key_prot {
        settings.key_prot = k;
    }
    if let Some(t) = body.topic_saved {
        settings.topic_saved = t;
    }
    Ok(settings)
}

/// What follows when settings were written.
pub fn settings_written(chan: &Channel, written: &ChannelSettings) -> (m: Mutation)
    ensures
        m@ == (MutationView {
            status: OK,
            note: NoteView {
                action: "channel.settings.update"@,
                target: Some(chan.name@),
                details: audit::text_field(
                    "flags"@,
                    flags::text_of(written.flags.spec_bits()),
                ),
            },
            broadcast: BroadcastView::Upsert(RowView::ChannelSettings(written@)),
        }),
{
    Mutation {
        status: OK,
        note: note(
            "channel.settings.update",
            chan.name.as_str(),
            Details::text("flags", written.flags.to_string().as_str()),
        ),
        broadcast: Broadcast::Upsert(UpsertKind::ChannelSettings(written.copy())),
    }
}

// ----- users' flags -------------------------------------------------------------

/// A change to a user's flags in a channel: either the flags, in absolute form,
/// or a diff to apply to them.
#[derive(Debug, Clone, PartialEq, Eq)]
pub struct UserFlagsBody {
    pub flags: Option<String>,
    pub flags_diff: Option<String>,
}

/// Whether a change of flags says how: exactly one form is given.
pub fn check_user_flags(body: &UserFlagsBody) -> (r: Result<(), ApiError>)
    ensures
        if (body.flags is Some) != (body.flags_diff is Some) {
            r is Ok
        } else {
            r matches Err(e) && e@ == ApiErrorView::BadRequest(
                "exactly one of `flags` or `flags_diff` is required"@,
            )
        },
{
    if body.flags.is_some() == body.flags_diff.is_some() {
        return Err(bad_request("exactly one of `flags` or `flags_diff` is required"));
    }
    Ok(())
}

/// The flags that a change makes of a user's row in a channel. Without a row the
/// user has none.
pub fn put_channel_user_flags(existing: Option<&ChannelUserFlags>, body: &UserFlagsBody) -> (r:
    Result<FlagSet, ApiError>)
    ensures
        users::flags_view(r) == ({
            let base = match existing {
                Some(row) => row.flags,
                None => FlagSet::of_bits(0),
            };
            match body.flags {
                Some(a) => users::flags_changed(0, a@),
                None => match body.flags_diff {
                    Some(d) => users::flags_changed(base.spec_bits(), d@),
                    None => Ok(base),
                },
            }
        }),
{
    let base = match existing {
        Some(row) => row.flags,
        None => {
            let none = FlagSet::none();
            proof {
                flags::set_is_its_bitmap(none, 0);
            }
            none
        },
    };
    match &body.flags {
        Some(absolute) => read_flags(absolute.as_str()),
        None => match &body.flags_diff {
            Some(diff) => change_flags(base, diff.as_str()),
            None => Ok(base),
        },
    }
}

/// What follows when a user's flags in a channel were written.
pub fn user_flags_written(chan: &Channel, user: &User, row: &ChannelUserFlags) -> (m: Mutation)
    ensures
        m@ == (MutationView {
            status: OK,
            note: NoteView {
                action: "channel.user_flags.update"@,
                target: Some(record::scoped(chan.name@, user.handle@)),
                details: audit::text_field("flags"@, flags::text_of(row.flags.spec_bits())),
            },
            broadcast: BroadcastView::Upsert(RowView::ChannelUserFlags(row@)),
        }),
{
    Mutation {
        status: OK,
        note: note(
            "channel.user_flags.update",
            scoped_target(chan.name.as_str(), user.handle.as_str()).as_str(),
            Details::text("flags", row.flags.to_string().as_str()),
        ),
        broadcast: Broadcast::Upsert(UpsertKind::ChannelUserFlags(row.copy())),
    }
}

/// What follows when a user's flags in a channel were to be deleted.
pub fn delete_channel_user_flags(chan: &Channel, user: &User, deleted: bool) -> (r: Result<
    Mutation,
    ApiError,
>)
    ensures
        if deleted {
            r matches Ok(m) && m@ == (MutationView {
                status: NO_CONTENT,
                note: NoteView {
                    action: "channel.user_flags.delete"@,
                    target: Some(record::scoped(chan.name@, user.handle@)),
                    details: DetailsView::Null,
                },
                broadcast: BroadcastView::Delete(
                    DeleteKind::ChannelUserFlags { channel_id: chan.id, user_id: user.id },
                ),
            })
        } else {
            r matches Err(e) && e@ == ApiErrorView::NotFound
        },
{
    if !deleted {
        return Err(ApiError::NotFound);
    }
    Ok(
        Mutation {
            status: NO_CONTENT,
            note: note(
                "channel.user_flags.delete",
                scoped_target(chan.name.as_str(), user.handle.as_str()).as_str(),
                Details::Null,
            ),
            broadcast: Broadcast::Delete(
                DeleteKind::ChannelUserFlags { channel_id: chan.id, user_id: user.id },
            ),
        },
    )
}

/// Settings that a change does not mention stay as they are.
pub proof fn empty_change_keeps_settings(s: SettingsView, b: SettingsBody)
    requires
        b.flags is None,
        b.mode_pls is None,
        b.mode_mns is None,
        b.limit_prot is None,
        b.key_prot is None,
        b.topic_saved is None,
    ensures
        settings_changed(s, b) == Ok::<SettingsView, ApiErrorView>(s),
{
}

/// Settings keep their channel, whatever changes.
pub proof fn settings_keep_their_channel(s: SettingsView, b: SettingsBody)
    ensures
        settings_changed(s, b) matches Ok(n) ==> n.channel_id == s.channel_id,
{
}

} // verus!
