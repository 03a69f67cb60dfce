//! What the server decides.

use vstd::prelude::*;
use vstd::utf8::*;

use crate::client::HELO;
use crate::dispatch::{Dispatch, DispatchView};
use crate::error::ChatError;
use crate::id_pool::MAX_NUM_USERS;
use crate::incoming::Reading;
use crate::message::{Message, MessageView, UserStatus};
use crate::text::{decimal_text, decode};

verus! {

/// Whether more connections are open than there can be users.
pub fn is_crowded(connections: usize) -> (r: bool)
    ensures
        r == (connections > MAX_NUM_USERS),
{
    connections > MAX_NUM_USERS
}

/// The name under which the handler of a connection logs.
pub open spec fn handler_name(userid: usize, addr: Seq<char>) -> Seq<char> {
    "@ Handler of ['"@ + crate::text::decimal(userid as nat) + "':"@ + addr + "]"@
}

/// Names the handler of a connection.
pub fn handler_task_id(userid: usize, addr: &str) -> (r: String)
    ensures
        r@ == handler_name(userid, addr@),
{
    let mut name = "@ Handler of ['".to_owned();
    name.append(decimal_text(userid).as_str());
    name.append("':");
    name.append(addr);
    name.append("]");
    name
}

/// Names the task of a handler that writes to the client.
pub fn writer_task_id(supertask_id: &str) -> (r: String)
    ensures
        r@ == supertask_id@ + " (TCP-writer)"@,
{
    let mut name = supertask_id.to_owned();
    name.append(" (TCP-writer)");
    name
}

/// Names the task of a handler that reads from the client.
pub fn reader_task_id(supertask_id: &str) -> (r: String)
    ensures
        r@ == supertask_id@ + " (TCP-recv)"@,
{
    let mut name = supertask_id.to_owned();
    name.append(" (TCP-recv)");
    name
}

/// What happens to a task that reads from a client.
pub enum ReadingEvent {
    /// The connection is to be closed.
    Cancelled,
    /// The client was read.
    Read(Reading),
}

/// The JSON of the first message of a client, unless the connection is to be closed, nothing
/// came, or what came is no text.
pub fn await_introduction(task_id: &str, event: ReadingEvent) -> (r: Result<String, ChatError>)
    ensures
        match event {
            ReadingEvent::Cancelled => {
                r matches Err(ChatError::ShutdownStarted(task)) && task@ == task_id@
            },
            ReadingEvent::Read(Reading::Failed) => {
                r matches Err(ChatError::HeloNotReceived(task)) && task@ == task_id@
            },
            ReadingEvent::Read(Reading::Bytes(bytes)) => {
                if bytes@.len() == 0 {
                    r matches Err(ChatError::HeloNotReceived(task)) && task@ == task_id@
                } else if !valid_utf8(bytes@) {
                    r matches Err(e) && crate::text::reports_not_utf8(e, bytes@)
                } else {
                    r matches Ok(json) && json@ == decode_utf8(bytes@)
                }
            },
        },
{
    match event {
        ReadingEvent::Cancelled => Err(ChatError::ShutdownStarted(task_id.to_owned())),
        ReadingEvent::Read(Reading::Failed) => Err(ChatError::HeloNotReceived(task_id.to_owned())),
        ReadingEvent::Read(Reading::Bytes(bytes)) => {
            if bytes.len() == 0 {
                return Err(ChatError::HeloNotReceived(task_id.to_owned()));
            }
            decode(bytes)
        },
    }
}

/// The name of the user whom the message introduces, if it is an introduction.
pub open spec fn introduced(msg: MessageView) -> Option<Seq<char>> {
    if msg.content == HELO@ {
        Some(msg.username)
    } else {
        None
    }
}

/// Finds out whom the first message of a client introduces.
pub fn introduced_user(task_id: &str, msg: &Message) -> (r: Result<String, ChatError>)
    ensures
        match introduced(msg@) {
            Some(name) => r matches Ok(username) && username@ == name,
            None => r matches Err(ChatError::HeloNotReceived(task)) && task@ == task_id@,
        },
{
    if msg.get_content() == HELO.to_owned() {
        Ok(msg.get_username())
    } else {
        Err(ChatError::HeloNotReceived(task_id.to_owned()))
    }
}

/// What a task that reads from a client does.
pub enum ReadingAction {
    /// Ends.
    Stop,
    /// Passes the message on of which this is the JSON.
    PassOn(String),
    /// Passes this dispatch on, and ends.
    TakeLeave(Dispatch),
}

/// Tells the others that the user is there.
pub fn arrival(userid: usize, username: &str) -> (r: Dispatch)
    ensures
        r@ == (DispatchView {
            userid,
            msg: crate::message::status_change(username@, UserStatus::Present),
        }),
{
    Dispatch::new(userid, Message::craft_status_change_msg(username, UserStatus::Present))
}

/// Decides what becomes of what a user's client sent. At the end of the connection the others
/// are told that the user left. Bytes that are no text end the task.
pub fn on_reading(userid: usize, username: &str, event: ReadingEvent) -> (r: Result<
    ReadingAction,
    ChatError,
>)
    ensures
        match event {
            ReadingEvent::Cancelled => r matches Ok(action) && action is Stop,
            ReadingEvent::Read(Reading::Failed) => r matches Ok(action) && action is Stop,
            ReadingEvent::Read(Reading::Bytes(bytes)) => {
                if bytes@.len() == 0 {
                    &&& r matches Ok(ReadingAction::TakeLeave(dispatch))
                    &&& dispatch@ == (DispatchView {
                        userid,
                        msg: crate::message::status_change(username@, UserStatus::Absent),
                    })
                } else if !valid_utf8(bytes@) {
                    r matches Err(e) && crate::text::reports_not_utf8(e, bytes@)
                } else {
                    &&& r matches Ok(ReadingAction::PassOn(json))
                    &&& json@ == decode_utf8(bytes@)
                }
            },
        },
{
    match event {
        ReadingEvent::Cancelled => Ok(ReadingAction::Stop),
        ReadingEvent::Read(Reading::Failed) => Ok(ReadingAction::Stop),
        ReadingEvent::Read(Reading::Bytes(bytes)) => {
            if bytes.len() == 0 {
                return Ok(
                    ReadingAction::TakeLeave(
                        Dispatch::craft_status_change_dispatch(
                            userid,
                            username,
                            UserStatus::Absent,
                        ),
                    ),
                );
            }
            match decode(bytes) {
                Ok(json) => Ok(ReadingAction::PassOn(json)),
                Err(e) => Err(e),
            }
        },
    }
}

/// What happens to a task that writes to a client.
pub enum WritingEvent {
    /// The connection is to be closed.
    Cancelled,
    /// A dispatch is passed around.
    Passed(Dispatch),
}

/// What a task that writes to a client does.
pub enum WritingAction {
    /// Waits on.
    KeepBack,
    /// Sends the text.
    Send(String),
    /// Sends the text, and ends.
    SendLast(String),
}

/// What the client of a user is sent of a dispatch: its message, unless it comes from that
/// user.
pub open spec fn forwarded(userid: usize, dispatch: DispatchView) -> Option<Seq<char>> {
    if dispatch.userid == userid {
        None
    } else {
        Some(crate::json::json_message(dispatch.msg.username, dispatch.msg.content))
    }
}

/// Decides what the client of a user is sent.
pub fn on_writing(userid: usize, event: WritingEvent) -> (r: Result<WritingAction, ChatError>)
    ensures
        match event {
            WritingEvent::Cancelled => {
                let farewell = crate::message::server_interrupt();
                &&& r matches Ok(WritingAction::SendLast(json))
                &&& json@ == crate::json::json_message(farewell.username, farewell.content)
            },
            WritingEvent::Passed(dispatch) => match forwarded(userid, dispatch@) {
                Some(text) => r matches Ok(WritingAction::Send(json)) && json@ == text,
                None => r matches Ok(action) && action is KeepBack,
            },
        },
{
    match event {
        WritingEvent::Cancelled => match Message::craft_server_interrupt_msg().serialized() {
            Ok(json) => Ok(WritingAction::SendLast(json)),
            Err(e) => Err(e),
        },
        WritingEvent::Passed(dispatch) => {
            if dispatch.get_userid() == userid {
                return Ok(WritingAction::KeepBack);
            }
            match dispatch.into_msg().serialized() {
                Ok(json) => Ok(WritingAction::Send(json)),
                Err(e) => Err(e),
            }
        },
    }
}

/// The introduction that a client sends introduces its user: the only message with that JSON
/// does.
pub proof fn introduction_introduces_the_user(name: Seq<char>, msg: MessageView)
    requires
        crate::json::json_message(msg.username, msg.content) == crate::json::json_message(name, HELO@),
    ensures
        introduced(msg) == Some(name),
{
    crate::json::json_determines_message(msg.username, msg.content, name, HELO@);
}

/// A message reaches the client of every user but its author: users are told apart by their
/// identifiers, so that the name of the author makes no difference.
pub proof fn message_reaches_everyone_else(
    author: usize,
    reader: usize,
    msg: MessageView,
)
    ensures
        forwarded(reader, (DispatchView { userid: author, msg })) is None <==> reader == author,
        reader != author ==> forwarded(reader, (DispatchView { userid: author, msg })) == Some(
            crate::json::json_message(msg.username, msg.content),
        ),
{
}

/// A message introduces its user exactly when it says `helo`, and the user is the one in whose
/// name it is.
pub proof fn greeting_introduces_its_user(msg: MessageView)
    ensures
        msg.content == "helo"@ ==> introduced(msg) == Some(msg.username),
        msg.content != "helo"@ ==> introduced(msg) is None,
{
}

/// The handler of a connection is named by the identifier and the address, nothing of them
/// changed.
pub proof fn handler_name_keeps_every_part(userid: usize, addr: Seq<char>)
    ensures
        ({
            let name = handler_name(userid, addr);
            let id = crate::text::decimal(userid as nat);
            &&& name.len() == 15 + id.len() + 2 + addr.len() + 1
            &&& name.take(15) == "@ Handler of ['"@
            &&& name.skip(15).take(id.len() as int) == id
            &&& name.skip(15int + id.len()).take(2) == seq!['\'', ':']
            &&& name.skip(17int + id.len()).take(addr.len() as int) == addr
            &&& name.last() == ']'
        }),
{
    reveal_strlit("@ Handler of ['");
    reveal_strlit("':");
    reveal_strlit("]");
}

} // verus!
