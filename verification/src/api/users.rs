//! Requests about users.

use crate::api::error::{bad_request, ApiError, ApiErrorView};
use crate::api::record::{
    note, Broadcast, BroadcastView, Mutation, MutationView, NoteView, CREATED,
    NO_CONTENT, OK,
};
use crate::crypto;
use crate::model::audit;
use crate::model::audit::{Details, DetailsView};
use crate::model::flags;
use crate::model::flags::FlagSet;
use crate::model::ids;
use crate::model::password;
use crate::model::user::{NewUser, NewUserView, User, UserView};
use crate::proto::sync::{DeleteKind, RowView, UpsertKind};
use crate::text;
use vstd::prelude::*;

verus! {

// ----- flags in requests --------------------------------------------------------

/// The flag set that a diff makes of `base`, or what is wrong with it.
pub open spec fn flags_changed(base: u64, diff: Seq<char>) -> Result<FlagSet, ApiErrorView> {
    let s = flags::diff_applied(base, diff);
    match s.bad {
        None => Ok(FlagSet::of_bits(s.bits)),
        Some(c) => Err(ApiErrorView::BadRequest(flags::invalid_char_text(c))),
    }
}

/// The view of a flag result.
pub open spec fn flags_view(r: Result<FlagSet, ApiError>) -> Result<FlagSet, ApiErrorView> {
    match r {
        Ok(f) => Ok(f),
        Err(e) => Err(e@),
    }
}

/// Apply a flag diff of a request to `base`.
pub fn change_flags(base: FlagSet, diff: &str) -> (r: Result<FlagSet, ApiError>)
    ensures
        flags_view(r) == flags_changed(base.spec_bits(), diff@),
{
    let mut f = base;
    match f.apply_diff(diff) {
        Ok(()) => {
            proof {
                flags::set_is_its_bitmap(f, f.spec_bits());
            }
            Ok(f)
        },
        Err(e) => Err(ApiError::BadRequest(e.to_string())),
    }
}

/// The flag set of a request, in absolute form.
pub fn read_flags(absolute: &str) -> (r: Result<FlagSet, ApiError>)
    ensures
        flags_view(r) == flags_changed(0, absolute@),
{
    change_flags(FlagSet::none(), absolute)
}

// ----- creating -----------------------------------------------------------------

/// Whether a user can be made as asked: a handle of white space only is no
/// handle.
pub fn create_user(body: &NewUser) -> (r: Result<(), ApiError>)
    ensures
        if text::trimmed(body.handle@).len() == 0 {
            r matches Err(e) && e@ == ApiErrorView::BadRequest("handle must not be empty"@)
        } else {
            r is Ok
        },
{
    check_handle(body.handle.as_str())
}

/// A handle of white space only is no handle.
pub fn check_handle(handle: &str) -> (r: Result<(), ApiError>)
    ensures
        if text::trimmed(handle@).len() == 0 {
            r matches Err(e) && e@ == ApiErrorView::BadRequest("handle must not be empty"@)
        } else {
            r is Ok
        },
{
    if text::is_empty(text::trim(handle)) {
        return Err(bad_request("handle must not be empty"));
    }
    Ok(())
}

// ----- changing -----------------------------------------------------------------

/// A change to a user. What is absent stays; `Some(None)` clears.
#[derive(Debug, Clone, PartialEq, Eq)]
pub struct UserPatch {
    pub handle: Option<String>,
    pub password_hash: Option<Option<String>>,
    pub is_bot: Option<bool>,
    /// The flags, in absolute form.
    pub global_flags: Option<String>,
    pub comment: Option<Option<String>>,
    pub hosts: Option<Vec<String>>,
    /// A diff to apply to the flags. Not together with `global_flags`.
    pub flags_diff: Option<String>,
}

impl Default for UserPatch {
    /// Nothing changes.
    fn default() -> (p: Self)
        ensures
            p == (UserPatch {
                handle: None,
                password_hash: None,
                is_bot: None,
                global_flags: None,
                comment: None,
                hosts: None,
                flags_diff: None,
            }),
    {
        UserPatch {
            handle: None,
            password_hash: None,
            is_bot: None,
            global_flags: None,
            comment: None,
            hosts: None,
            flags_diff: None,
        }
    }
}

/// The flags of a patched user, or why the patch is refused.
pub open spec fn patched_flags(base: FlagSet, p: UserPatch) -> Result<FlagSet, ApiErrorView> {
    if p.global_flags is Some && p.flags_diff is Some {
        Err(
            ApiErrorView::BadRequest("global_flags and flags_diff are mutually exclusive"@),
        )
    } else {
        match p.global_flags {
            Some(a) => flags_changed(0, a@),
            None => match p.flags_diff {
                Some(d) => flags_changed(base.spec_bits(), d@),
                None => Ok(base),
            },
        }
    }
}

/// A patched user, or why the patch is refused.
pub open spec fn patched(u: UserView, p: UserPatch) -> Result<NewUserView, ApiErrorView> {
    match patched_flags(u.global_flags, p) {
        Err(e) => Err(e),
        Ok(f) => Ok(
            NewUserView {
                handle: match p.handle {
                    Some(h) => h@,
                    None => u.handle,
                },
                password_hash: match p.password_hash {
                    Some(h) => text::opt_view(h),
                    None => u.password_hash,
                },
                is_bot: match p.is_bot {
                    Some(b) => b,
                    None => u.is_bot,
                },
                global_flags: f,
                comment: match p.comment {
                    Some(c) => text::opt_view(c),
                    None => u.comment,
                },
                hosts: match p.hosts {
                    Some(h) => text::views(h@),
                    None => u.hosts,
                },
            },
        ),
    }
}

/// The view of a patching result.
pub open spec fn patch_view(r: Result<NewUser, ApiError>) -> Result<NewUserView, ApiErrorView> {
    match r {
        Ok(n) => Ok(n@),
        Err(e) => Err(e@),
    }
}

/// What to write when `user` is patched.
pub fn patch_user(user: User, patch: UserPatch) -> (r: Result<NewUser, ApiError>)
    ensures
        patch_view(r) == patched(user@, patch),
{
    let mut new = user.into_new();
    if let Some(handle) = patch.handle {
        new.handle = handle;
    }
    if let Some(password_hash) = patch.password_hash {
        new.password_hash = password_hash;
    }
    if let Some(is_bot) = patch.is_bot {
        new.is_bot = is_bot;
    }
    if patch.global_flags.is_some() && patch.flags_diff.is_some() {
        return Err(bad_request("global_flags and flags_diff are mutually exclusive"));
    }
    if let Some(absolute) = patch.global_flags {
        match read_flags(absolute.as_str()) {
            Ok(f) => {
                new.global_flags = f;
            },
            Err(e) => {
                return Err(e);
            },
        }
    }
    if let Some(diff) = patch.flags_diff {
        match change_flags(new.global_flags, diff.as_str()) {
            Ok(f) => {
                new.global_flags = f;
            },
            Err(e) => {
                return Err(e);
            },
        }
    }
    if let Some(comment) = patch.comment {
        new.comment = comment;
    }
    if let Some(hosts) = patch.hosts {
        new.hosts = hosts;
    }
    Ok(new)
}

// ----- passwords ----------------------------------------------------------------

/// What to write when a user's password is set to what was hashed to `encoded`.
pub fn with_password_hash(user: User, encoded: String) -> (n: NewUser)
    ensures
        n@ == (NewUserView { password_hash: Some(encoded@), ..user@.editable() }),
{
    let mut new = user.into_new();
    new.password_hash = Some(encoded);
    new
}

/// Whether a password can be set: it is not empty.
pub fn check_password(password: &str) -> (r: Result<(), ApiError>)
    ensures
        if password@.len() == 0 {
            r matches Err(e) && e@ == ApiErrorView::BadRequest("password must not be empty"@)
        } else {
            r is Ok
        },
{
    if text::is_empty(password) {
        return Err(bad_request("password must not be empty"));
    }
    Ok(())
}

/// Whether this is what setting a user's password comes to when it is hashed with
/// the salt `salt`. Everything but the password stays.
pub open spec fn password_put(
    r: Result<NewUser, ApiError>,
    user: UserView,
    new_password: Seq<char>,
    salt: Seq<char>,
) -> bool {
    match crypto::argon2id_phc(
        new_password,
        salt,
        password::MEMORY_KIB,
        password::PASSES,
        password::LANES,
    ) {
        Ok(h) => r matches Ok(n) && n@ == (NewUserView {
            password_hash: Some(h),
            ..user.editable()
        }) && crypto::accepts(h, new_password),
        Err(m) => r matches Err(e) && e@ == ApiErrorView::BadRequest(
            "hashing failed: "@ + password::PasswordFault::Argon2(m).message(),
        ),
    }
}

/// What to write when a user's password is set. An empty password is refused,
/// and everything but the password stays.
pub fn put_user_password(user: User, new_password: &str) -> (r: Result<NewUser, ApiError>)
    ensures
        new_password@.len() == 0 ==> (r matches Err(e) && e@ == ApiErrorView::BadRequest(
            "password must not be empty"@,
        )),
        new_password@.len() > 0 ==> exists|salt: Seq<char>|
            crypto::is_salt(salt) && #[trigger] password_put(r, user@, new_password@, salt),
        new_password@.len() > 0 && crypto::is_hashable(new_password@) ==> r is Ok,
{
    if let Err(e) = check_password(new_password) {
        return Err(e);
    }
    let hashing = password::hash(new_password);
    let ghost salt = choose|salt: Seq<char>|
        crypto::is_salt(salt) && #[trigger] password::hashed(hashing, new_password@, salt);
    let r = match hashing {
        Ok(encoded) => Ok(with_password_hash(user, encoded)),
        Err(e) => Err(
            ApiError::BadRequest(text::concat("hashing failed: ", e.to_string().as_str())),
        ),
    };
    assert(password_put(r, user@, new_password@, salt));
    r
}

/// What to write when a user's password is cleared: a user without one is not
/// found.
pub fn delete_user_password(user: User) -> (r: Result<NewUser, ApiError>)
    ensures
        match user@.password_hash {
            None => r matches Err(e) && e@ == ApiErrorView::NotFound,
            Some(_) => r matches Ok(n) && n@ == (NewUserView {
                password_hash: None,
                ..user@.editable()
            }),
        },
{
    if user.password_hash.is_none() {
        return Err(ApiError::NotFound);
    }
    let mut new = user.into_new();
    new.password_hash = None;
    Ok(new)
}

// ----- what follows -------------------------------------------------------------

/// What follows when a user was written.
pub open spec fn user_written(action: Seq<char>, status: u16, details: DetailsView, u: UserView) -> MutationView {
    MutationView {
        status,
        note: NoteView { action, target: Some(u.handle), details },
        broadcast: BroadcastView::Upsert(RowView::User(u)),
    }
}

/// The details that name a user.
pub open spec fn user_details(u: UserView) -> DetailsView {
    audit::text_field("id"@, ids::ulid_text(u.id.0))
}

/// What follows when a user was made.
pub fn user_created(user: &User) -> (m: Mutation)
    ensures
        m@ == user_written("user.upsert"@, CREATED, user_details(user@), user@),
{
    Mutation {
        status: CREATED,
        note: note(
            "user.upsert",
            user.handle.as_str(),
            Details::text("id", user.id.to_string().as_str()),
        ),
        broadcast: Broadcast::Upsert(UpsertKind::User(user.copy())),
    }
}

/// What follows when a user was patched.
pub fn user_updated(user: &User) -> (m: Mutation)
    ensures
        m@ == user_written("user.update"@, OK, user_details(user@), user@),
{
    Mutation {
        status: OK,
        note: note(
            "user.update",
            user.handle.as_str(),
            Details::text("id", user.id.to_string().as_str()),
        ),
        broadcast: Broadcast::Upsert(UpsertKind::User(user.copy())),
    }
}

/// What follows when a user's password was set.
pub fn password_set(user: &User) -> (m: Mutation)
    ensures
        m@ == user_written("user.password.set"@, NO_CONTENT, DetailsView::Null, user@),
{
    Mutation {
        status: NO_CONTENT,
        note: note("user.password.set", user.handle.as_str(), Details::Null),
        broadcast: Broadcast::Upsert(UpsertKind::User(user.copy())),
    }
}

/// What follows when a user's password was cleared.
pub fn password_cleared(user: &User) -> (m: Mutation)
    ensures
        m@ == user_written("user.password.clear"@, NO_CONTENT, DetailsView::Null, user@),
{
    Mutation {
        status: NO_CONTENT,
        note: note("user.password.clear", user.handle.as_str(), Details::Null),
        broadcast: Broadcast::Upsert(UpsertKind::User(user.copy())),
    }
}

/// What follows when a user was to be deleted. Where the store found nothing to
/// delete, the user does not exist.
pub fn delete_user(user: &User, deleted: bool) -> (r: Result<Mutation, ApiError>)
    ensures
        if deleted {
            r matches Ok(m) && m@ == (MutationView {
                status: NO_CONTENT,
                note: NoteView {
                    action: "user.delete"@,
                    target: Some(user.handle@),
                    details: user_details(user@),
                },
                broadcast: BroadcastView::Delete(DeleteKind::User { id: user.id }),
            })
        } else {
            r matches Err(e) && e@ == ApiErrorView::NotFound
        },
{
    if !deleted {
        return Err(ApiError::NotFound);
    }
    Ok(
        Mutation {
            status: NO_CONTENT,
            note: note(
                "user.delete",
                user.handle.as_str(),
                Details::text("id", user.id.to_string().as_str()),
            ),
            broadcast: Broadcast::Delete(DeleteKind::User { id: user.id }),
        },
    )
}

// ----- laws ------------------------------------------------------------------

/// An empty patch changes nothing.
pub proof fn empty_patch_changes_nothing(u: UserView, p: UserPatch)
    requires
        p.handle is None,
        p.password_hash is None,
        p.is_bot is None,
        p.global_flags is None,
        p.comment is None,
        p.hosts is None,
        p.flags_diff is None,
    ensures
        patched(u, p) == Ok::<NewUserView, ApiErrorView>(u.editable()),
{
}

/// A patch with a flag diff is the same as one with the flags that result.
pub proof fn diff_and_absolute_agree(u: UserView, diff: UserPatch, absolute: UserPatch)
    requires
        diff.flags_diff is Some,
        diff.global_flags is None,
        absolute.global_flags is Some,
        absolute.flags_diff is None,
        absolute == (UserPatch {
            flags_diff: None,
            global_flags: absolute.global_flags,
            ..diff
        }),
        flags_changed(0, absolute.global_flags->0@) == flags_changed(
            u.global_flags.spec_bits(),
            diff.flags_diff->0@,
        ),
    ensures
        patched(u, diff) == patched(u, absolute),
{
}

} // verus!
