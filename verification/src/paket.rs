//! The plain packets: messages without limits, dispatches, and a pool of identifiers that is
//! handled by free functions.

use std::sync::{Arc, LockResult, Mutex, MutexGuard};
use vstd::prelude::*;

use crate::dispatch::DispatchView;
use crate::error::ChatError;
use crate::id_pool::{lock_ids, new_ids, new_mutex, obtain_under, redeem_under};
use crate::json::message_text;
use crate::message::MessageView;
use crate::text::decimal_text;

pub use crate::id_pool::MAX_NUM_USERS;
pub use crate::message::UserStatus;
pub use crate::SERVER_ADDR;

verus! {

/// How many bytes a username is meant to take at most.
pub const MAX_USERNAME_LEN: usize = 40;

/// How many bytes a piece of content is meant to take at most.
pub const MAX_CONTENT_UNIT_LEN: usize = 256;

/// How many bytes are taken in at once.
pub const BUFFER_LEN: usize = MAX_USERNAME_LEN + MAX_CONTENT_UNIT_LEN + 20;

/// A handle to a pool of identifiers.
pub type SharedIdPool = Arc<Mutex<Vec<usize>>>;

/// A new pool, in which every identifier is free.
pub fn new_sharded_id_pool() -> (r: SharedIdPool)
    ensures
        crate::id_pool::made_with(*r) == crate::id_pool::fresh_ids(),
{
    Arc::new(new_mutex(new_ids()))
}

/// Takes an identifier out of the pool: the pool is locked, and of the identifiers that are free
/// at that moment the last one is taken, unless there is none or the pool is poisoned. Which
/// ones are free then depends on the other threads. The lock is released in the state that the
/// taking left: nothing else is done under it.
pub fn obtain_id_token(ids: &SharedIdPool) -> (r: Result<usize, ChatError>)
    ensures
        crate::id_pool::taken_in(**ids, r),
        exists|
            before: LockResult<MutexGuard<'_, Vec<usize>>>,
            after: LockResult<MutexGuard<'_, Vec<usize>>>,
        |
            {
                &&& crate::id_pool::is_locked_from(before, **ids)
                &&& crate::id_pool::is_lock_of(after, **ids)
                &&& #[trigger] crate::id_pool::taken(before, after, r)
                &&& has_resolved(after)
            },
{
    let mut lock = lock_ids(ids);
    obtain_under(&mut lock)
}

/// Puts an identifier into the pool: the pool is locked, and the identifier joins those that are
/// free at that moment, unless the pool is poisoned. Which ones are free then depends on the
/// other threads. The lock is released in the state that this left: nothing else is done under
/// it.
pub fn redeem_token(ids: SharedIdPool, id: usize) -> (r: Result<(), ChatError>)
    ensures
        crate::id_pool::redeemed_in(*ids, id, r),
        exists|
            before: LockResult<MutexGuard<'_, Vec<usize>>>,
            after: LockResult<MutexGuard<'_, Vec<usize>>>,
        |
            {
                &&& crate::id_pool::is_locked_from(before, *ids)
                &&& crate::id_pool::is_lock_of(after, *ids)
                &&& #[trigger] crate::id_pool::redeemed(before, after, id, r)
                &&& has_resolved(after)
            },
{
    let mut lock = lock_ids(&ids);
    redeem_under(&mut lock, id)
}

/// A username and a content, of any length and with any characters.
#[derive(Debug)]
pub struct Message {
    username: String,
    content: String,
}

impl View for Message {
    type V = MessageView;

    closed spec fn view(&self) -> MessageView {
        MessageView { username: self.username@, content: self.content@ }
    }
}

impl Clone for Message {
    fn clone(&self) -> (r: Self)
        ensures
            r == *self,
    {
        Message { username: self.username.clone(), content: self.content.clone() }
    }
}

impl Message {
    /// A message of a user.
    pub fn new(username: &str, content: &str) -> (r: Message)
        ensures
            r@ == (MessageView { username: username@, content: content@ }),
    {
        Message { username: username.to_owned(), content: content.to_owned() }
    }

    /// In whose name the message is.
    pub fn get_username(&self) -> (r: String)
        ensures
            r@ == self@.username,
    {
        self.username.clone()
    }

    /// What the message says.
    pub fn get_content(&self) -> (r: String)
        ensures
            r@ == self@.content,
    {
        self.content.clone()
    }

    /// How many bytes the content takes.
    pub fn get_content_length(&self) -> (r: usize)
        ensures
            r == crate::text::byte_len(self@.content),
    {
        self.content.as_str().as_bytes().len()
    }

    /// The JSON object of the message.
    pub fn serialized(&self) -> (r: Result<String, ChatError>)
        ensures
            r is Ok,
            r->Ok_0@ == crate::json::json_message(self@.username, self@.content),
    {
        message_text(self.username.as_str(), self.content.as_str())
    }

    /// The message by which the server tells that a user came or went.
    pub fn craft_status_change_msg(username: &str, status: UserStatus) -> (r: Message)
        ensures
            r@ == crate::message::status_change(username@, status),
    {
        let mut content = username.to_owned();
        match status {
            UserStatus::Present => content.append(" just joined the chat"),
            UserStatus::Absent => content.append(" just left the chat"),
        }
        Message { username: "SERVER".to_owned(), content }
    }

    /// The message by which the server closes a connection.
    pub fn craft_server_interrupt_msg() -> (r: Message)
        ensures
            r@ == crate::message::server_interrupt(),
    {
        Message {
            username: "SERVER".to_owned(),
            content: "The SERVER is shutting down this connection.".to_owned(),
        }
    }

    /// Shows the message to a user.
    pub fn display(&self) -> (r: String)
        ensures
            r@ == crate::message::shown_message(self@),
    {
        let mut text = "[".to_owned();
        text.append(self.username.as_str());
        text.append("] :> ");
        text.append(self.content.as_str());
        text
    }
}

/// A message with the identifier of the user it comes from.
#[derive(Debug)]
pub struct Dispatch {
    userid: usize,
    msg: Message,
}

impl View for Dispatch {
    type V = DispatchView;

    closed spec fn view(&self) -> DispatchView {
        DispatchView { userid: self.userid, msg: self.msg@ }
    }
}

impl Clone for Dispatch {
    fn clone(&self) -> (r: Self)
        ensures
            r == *self,
    {
        Dispatch { userid: self.userid, msg: self.msg.clone() }
    }
}

impl Dispatch {
    /// A message of the given user.
    pub fn new(userid: usize, msg: Message) -> (r: Dispatch)
        ensures
            r@ == (DispatchView { userid, msg: msg@ }),
    {
        Dispatch { userid, msg }
    }

    /// The message alone.
    pub fn into_msg(self) -> (r: Message)
        ensures
            r@ == self@.msg,
    {
        self.msg
    }

    /// Whom the message comes from.
    pub fn get_userid(&self) -> (r: usize)
        ensures
            r == self@.userid,
    {
        self.userid
    }

    /// The dispatch by which the server tells that a user came or went.
    pub fn craft_status_change_dispatch(
        userid: usize,
        username: &str,
        user_status: UserStatus,
    ) -> (r: Dispatch)
        ensures
            r@ == (DispatchView {
                userid,
                msg: crate::message::status_change(username@, user_status),
            }),
    {
        Dispatch { userid, msg: Message::craft_status_change_msg(username, user_status) }
    }

    /// Shows the dispatch in the log of the server.
    pub fn display(&self) -> (r: String)
        ensures
            r@ == crate::dispatch::shown_dispatch(self@),
    {
        let mut text = "[#".to_owned();
        text.append(decimal_text(self.userid).as_str());
        text.append("] <");
        text.append(self.msg.username.as_str());
        text.append(",");
        text.append(self.msg.content.as_str());
        text.append(">");
        text
    }
}

/// The sizes that the plain packets are meant to keep to.
pub proof fn sizes_of_plain_packets()
    ensures
        MAX_USERNAME_LEN == 40,
        MAX_CONTENT_UNIT_LEN == 256,
        BUFFER_LEN == 316,
        MAX_NUM_USERS == 2000,
{
}

} // verus!
