//! User records.
//!
//! A [`User`] is one entry in the global address book: a stable handle and the
//! network-wide flag set. Per-channel privileges live in
//! [`crate::model::channel::ChannelUserFlags`].

use crate::model::flags::FlagSet;
use crate::model::ids::UserId;
use crate::text;
use vstd::prelude::*;

verus! {

/// Persisted user record.
#[derive(Debug, Clone, PartialEq, Eq)]
pub struct User {
    pub id: UserId,
    /// Case-insensitive unique handle the operator uses to refer to this user.
    pub handle: String,
    /// PHC string of an admin password, if any.
    pub password_hash: Option<String>,
    /// Bot accounts: mesh peers identified by handle, not interactive users.
    pub is_bot: bool,
    /// Network-wide flag set.
    pub global_flags: FlagSet,
    /// Optional free-form comment shown alongside the user in admin tools.
    pub comment: Option<String>,
    /// Hostmasks attached to this user for passive identification.
    pub hosts: Vec<String>,
    /// Unix milliseconds.
    pub created_at: i64,
    /// Unix milliseconds.
    pub updated_at: i64,
    /// Unix milliseconds; `None` if the user has never been seen on IRC.
    pub last_seen_at: Option<i64>,
    /// Node that last wrote this row; breaks ties between concurrent writes.
    pub origin_node: String,
}

/// What a [`User`] says.
pub struct UserView {
    pub id: UserId,
    pub handle: Seq<char>,
    pub password_hash: Option<Seq<char>>,
    pub is_bot: bool,
    pub global_flags: FlagSet,
    pub comment: Option<Seq<char>>,
    pub hosts: Seq<Seq<char>>,
    pub created_at: i64,
    pub updated_at: i64,
    pub last_seen_at: Option<i64>,
    pub origin_node: Seq<char>,
}

impl View for User {
    type V = UserView;

    open spec fn view(&self) -> UserView {
        UserView {
            id: self.id,
            handle: self.handle@,
            password_hash: text::opt_view(self.password_hash),
            is_bot: self.is_bot,
            global_flags: self.global_flags,
            comment: text::opt_view(self.comment),
            hosts: text::views(self.hosts@),
            created_at: self.created_at,
            updated_at: self.updated_at,
            last_seen_at: self.last_seen_at,
            origin_node: self.origin_node@,
        }
    }
}

/// Inputs required to create a new user; the rest is filled in on writing.
#[derive(Debug, Clone, PartialEq, Eq)]
pub struct NewUser {
    pub handle: String,
    pub password_hash: Option<String>,
    pub is_bot: bool,
    pub global_flags: FlagSet,
    pub comment: Option<String>,
    pub hosts: Vec<String>,
}

/// What a [`NewUser`] says.
pub struct NewUserView {
    pub handle: Seq<char>,
    pub password_hash: Option<Seq<char>>,
    pub is_bot: bool,
    pub global_flags: FlagSet,
    pub comment: Option<Seq<char>>,
    pub hosts: Seq<Seq<char>>,
}

impl View for NewUser {
    type V = NewUserView;

    open spec fn view(&self) -> NewUserView {
        NewUserView {
            handle: self.handle@,
            password_hash: text::opt_view(self.password_hash),
            is_bot: self.is_bot,
            global_flags: self.global_flags,
            comment: text::opt_view(self.comment),
            hosts: text::views(self.hosts@),
        }
    }
}

impl UserView {
    /// The fields of the user that an operator can set.
    pub open spec fn editable(self) -> NewUserView {
        NewUserView {
            handle: self.handle,
            password_hash: self.password_hash,
            is_bot: self.is_bot,
            global_flags: self.global_flags,
            comment: self.comment,
            hosts: self.hosts,
        }
    }
}

impl User {
    /// A copy of the record.
    pub fn copy(&self) -> (u: Self)
        ensures
            u@ == self@,
    {
        User {
            id: self.id,
            handle: self.handle.clone(),
            password_hash: text::opt_clone(&self.password_hash),
            is_bot: self.is_bot,
            global_flags: self.global_flags,
            comment: text::opt_clone(&self.comment),
            hosts: text::copy_list(&self.hosts),
            created_at: self.created_at,
            updated_at: self.updated_at,
            last_seen_at: self.last_seen_at,
            origin_node: self.origin_node.clone(),
        }
    }

    /// The fields of the user that an operator can set.
    pub fn into_new(self) -> (n: NewUser)
        ensures
            n@ == self@.editable(),
    {
        NewUser {
            handle: self.handle,
            password_hash: self.password_hash,
            is_bot: self.is_bot,
            global_flags: self.global_flags,
            comment: self.comment,
            hosts: self.hosts,
        }
    }
}

} // verus!
