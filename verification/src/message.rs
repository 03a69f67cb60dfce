//! The messages that users exchange.

use vstd::prelude::*;
use vstd::utf8::*;

use crate::error::ChatError;
use crate::json::message_text;
use crate::text::contains_char;

verus! {

/// What a [`Message`] says, and in whose name.
#[verifier::ext_equal]
pub struct MessageView {
    pub username: Seq<char>,
    pub content: Seq<char>,
}

/// The unit that the clients exchange: a username of at most `MAX_USERNAME_LEN` bytes and a
/// content of at most `MAX_CONTENT_LEN` bytes. [`Message::new`] and [`Message::from_parsed`]
/// refuse anything longer.
#[derive(Debug)]
pub struct Message {
    username: String,
    content: String,
}

/// Whether a user is coming or going.
pub enum UserStatus {
    Present,
    Absent,
}

impl View for Message {
    type V = MessageView;

    closed spec fn view(&self) -> MessageView {
        MessageView { username: self.username@, content: self.content@ }
    }
}

impl Clone for Message {
    fn clone(&self) -> (r: Self)
        ensures
            r == *self,
    {
        Message { username: self.username.clone(), content: self.content.clone() }
    }
}

/// Whether the text holds one of the two delimiters of the pakkets.
pub open spec fn has_delimiter(text: Seq<char>) -> bool {
    text.contains('|') || text.contains('`')
}

/// Whether the username is short enough.
pub open spec fn username_fits(username: Seq<char>) -> bool {
    crate::text::byte_len(username) <= Message::MAX_USERNAME_LEN
}

/// Whether the content is short enough.
pub open spec fn content_fits(content: Seq<char>) -> bool {
    crate::text::byte_len(content) <= Message::MAX_CONTENT_LEN
}

/// Why a message is refused.
pub enum Refusal {
    UsernameTooLong,
    ContentTooLong,
    ForbiddenSymbols,
}

/// Why a message with this username and this content is refused, if it is. The username is
/// looked at first, then the length of the content, then its characters.
pub open spec fn refusal(username: Seq<char>, content: Seq<char>) -> Option<Refusal> {
    if !username_fits(username) {
        Some(Refusal::UsernameTooLong)
    } else if !content_fits(content) {
        Some(Refusal::ContentTooLong)
    } else if has_delimiter(content) {
        Some(Refusal::ForbiddenSymbols)
    } else {
        None
    }
}

/// Why a received message with this username and this content is refused, if it is. The
/// characters of the content are not looked at.
pub open spec fn receipt_refusal(username: Seq<char>, content: Seq<char>) -> Option<Refusal> {
    if !username_fits(username) {
        Some(Refusal::UsernameTooLong)
    } else if !content_fits(content) {
        Some(Refusal::ContentTooLong)
    } else {
        None
    }
}

/// Whether the error reports that a message of the user was refused for this reason.
pub open spec fn reports_refusal(e: ChatError, why: Refusal, username: Seq<char>) -> bool {
    match why {
        Refusal::UsernameTooLong => e matches ChatError::UsernameTooLong(name) && name@ == username,
        Refusal::ContentTooLong => e is ContentTooLong,
        Refusal::ForbiddenSymbols => e is ForbiddenSymbols,
    }
}

/// What the server says when a user comes or goes.
pub open spec fn status_change(username: Seq<char>, status: UserStatus) -> MessageView {
    MessageView {
        username: "SERVER"@,
        content: username + match status {
            UserStatus::Present => " just joined the chat"@,
            UserStatus::Absent => " just left the chat"@,
        },
    }
}

/// What the server says when it closes a connection.
pub open spec fn server_interrupt() -> MessageView {
    MessageView {
        username: "SERVER"@,
        content: "The SERVER is shutting down this connection."@,
    }
}

/// How a message is shown to a user.
pub open spec fn shown_message(m: MessageView) -> Seq<char> {
    "["@ + m.username + "] :> "@ + m.content
}

impl Message {
    /// How many bytes a username takes at most.
    pub const MAX_USERNAME_LEN: usize = 30 * 4;

    /// How many bytes the content of a message takes at most.
    pub const MAX_CONTENT_LEN: usize = 256 * 4;

    /// A message of a user, unless the username or the content is too long or the content
    /// holds a delimiter.
    pub fn new(username: &str, content: &str) -> (r: Result<Message, ChatError>)
        ensures
            match refusal(username@, content@) {
                None => {
                    &&& r matches Ok(msg)
                    &&& msg@ == (MessageView { username: username@, content: content@ })
                },
                Some(why) => {
                    &&& r matches Err(e)
                    &&& reports_refusal(e, why, username@)
                },
            },
    {
        if username.as_bytes().len() > Message::MAX_USERNAME_LEN {
            return Err(ChatError::UsernameTooLong(username.to_owned()));
        }
        if content.as_bytes().len() > Message::MAX_CONTENT_LEN {
            return Err(ChatError::ContentTooLong);
        }
        if contains_char(content, '|') || contains_char(content, '`') {
            return Err(ChatError::ForbiddenSymbols);
        }
        Ok(Message { username: username.to_owned(), content: content.to_owned() })
    }

    /// The message that received JSON holds, given the username and the content that were
    /// parsed from it, or why the parsing failed. A username or a content that is too long is
    /// refused.
    pub fn from_parsed(parsed: Result<(String, String), String>) -> (r: Result<Message, ChatError>)
        ensures
            match parsed {
                Ok((username, content)) => match receipt_refusal(username@, content@) {
                    None => {
                        &&& r matches Ok(msg)
                        &&& msg@ == (MessageView { username: username@, content: content@ })
                    },
                    Some(why) => {
                        &&& r matches Err(e)
                        &&& reports_refusal(e, why, username@)
                    },
                },
                Err(reason) => r matches Err(ChatError::Json(why)) && why@ == reason@,
            },
    {
        let (username, content) = match parsed {
            Ok(pair) => pair,
            Err(reason) => return Err(ChatError::Json(reason)),
        };
        if username.as_str().as_bytes().len() > Message::MAX_USERNAME_LEN {
            return Err(ChatError::UsernameTooLong(username));
        }
        if content.as_str().as_bytes().len() > Message::MAX_CONTENT_LEN {
            return Err(ChatError::ContentTooLong);
        }
        Ok(Message { username, content })
    }

    /// In whose name the message is.
    pub fn get_username(&self) -> (r: String)
        ensures
            r@ == self@.username,
    {
        self.username.clone()
    }

    /// What the message says.
    pub fn get_content(&self) -> (r: String)
        ensures
            r@ == self@.content,
    {
        self.content.clone()
    }

    /// The JSON object of the message.
    pub fn serialized(&self) -> (r: Result<String, ChatError>)
        ensures
            r is Ok,
            r->Ok_0@ == crate::json::json_message(self@.username, self@.content),
    {
        message_text(self.username.as_str(), self.content.as_str())
    }

    /// The message by which the server tells that a user came or went. Its content is longer
    /// than `MAX_CONTENT_LEN` only where the name is longer than that of any user.
    pub fn craft_status_change_msg(username: &str, status: UserStatus) -> (r: Message)
        ensures
            r@ == status_change(username@, status),
    {
        let mut content = username.to_owned();
        match status {
            UserStatus::Present => content.append(" just joined the chat"),
            UserStatus::Absent => content.append(" just left the chat"),
        }
        Message { username: "SERVER".to_owned(), content }
    }

    /// The message by which the server closes a connection.
    pub fn craft_server_interrupt_msg() -> (r: Message)
        ensures
            r@ == server_interrupt(),
    {
        Message {
            username: "SERVER".to_owned(),
            content: "The SERVER is shutting down this connection.".to_owned(),
        }
    }

    /// Shows the message to a user.
    pub fn display(&self) -> (r: String)
        ensures
            r@ == shown_message(self@),
    {
        let mut text = "[".to_owned();
        text.append(self.username.as_str());
        text.append("] :> ");
        text.append(self.content.as_str());
        text
    }
}

/// A message that a user could send is not refused by those who receive it.
pub proof fn sent_message_is_not_refused_on_receipt(username: Seq<char>, content: Seq<char>)
    requires
        refusal(username, content) is None,
    ensures
        receipt_refusal(username, content) is None,
{
}

/// What the server says of a user whose name is short enough is not refused by those who
/// receive it, whatever the name holds.
pub proof fn status_change_is_not_refused_on_receipt(username: Seq<char>, status: UserStatus)
    requires
        username_fits(username),
    ensures
        receipt_refusal(
            status_change(username, status).username,
            status_change(username, status).content,
        ) is None,
{
    reveal_strlit("SERVER");
    reveal_strlit(" just joined the chat");
    reveal_strlit(" just left the chat");
    let words = match status {
        UserStatus::Present => " just joined the chat"@,
        UserStatus::Absent => " just left the chat"@,
    };
    assert(is_ascii_chars("SERVER"@));
    assert(is_ascii_chars(words));
    is_ascii_chars_encode_utf8("SERVER"@);
    is_ascii_chars_encode_utf8(words);
    crate::text::encode_concat(username, words);
}

/// What the server says of a user whose name is short enough could be said by a user too: it
/// is refused only where the name holds a delimiter.
pub proof fn status_change_is_a_proper_message(username: Seq<char>, status: UserStatus)
    requires
        username_fits(username),
    ensures
        refusal(status_change(username, status).username, status_change(username, status).content)
            is None <==> !has_delimiter(username),
{
    reveal_strlit("SERVER");
    reveal_strlit(" just joined the chat");
    reveal_strlit(" just left the chat");
    let server = "SERVER"@;
    let words = match status {
        UserStatus::Present => " just joined the chat"@,
        UserStatus::Absent => " just left the chat"@,
    };
    assert(is_ascii_chars(server));
    assert(is_ascii_chars(words));
    is_ascii_chars_encode_utf8(server);
    is_ascii_chars_encode_utf8(words);
    crate::text::encode_concat(username, words);
    crate::text::concat_holds(username, words, '|');
    crate::text::concat_holds(username, words, '`');
}

/// The message by which the server closes a connection could be sent by a user too.
pub proof fn server_interrupt_is_a_proper_message()
    ensures
        refusal(server_interrupt().username, server_interrupt().content) is None,
{
    reveal_strlit("SERVER");
    reveal_strlit("The SERVER is shutting down this connection.");
    assert(is_ascii_chars("SERVER"@));
    assert(is_ascii_chars("The SERVER is shutting down this connection."@));
    is_ascii_chars_encode_utf8("SERVER"@);
    is_ascii_chars_encode_utf8("The SERVER is shutting down this connection."@);
}

/// What the server says of a user who came or went: the username alone, and whether they joined
/// or left. The two are never the same.
pub proof fn status_change_tells_who_and_what(username: Seq<char>)
    ensures
        status_change(username, UserStatus::Present).username == "SERVER"@,
        status_change(username, UserStatus::Absent).username == "SERVER"@,
        status_change(username, UserStatus::Present).content.len() == username.len() + 21,
        status_change(username, UserStatus::Absent).content.len() == username.len() + 19,
        forall|i: int|
            0 <= i < username.len() ==> {
                &&& status_change(username, UserStatus::Present).content[i] == #[trigger] username[i]
                &&& status_change(username, UserStatus::Absent).content[i] == username[i]
            },
        status_change(username, UserStatus::Present).content.skip(username.len() as int)
            == " just joined the chat"@,
        status_change(username, UserStatus::Absent).content.skip(username.len() as int)
            == " just left the chat"@,
        status_change(username, UserStatus::Present).content != status_change(
            username,
            UserStatus::Absent,
        ).content,
{
    reveal_strlit(" just joined the chat");
    reveal_strlit(" just left the chat");
    let came = status_change(username, UserStatus::Present).content;
    let went = status_change(username, UserStatus::Absent).content;
    assert(came.skip(username.len() as int) == " just joined the chat"@);
    assert(went.skip(username.len() as int) == " just left the chat"@);
    assert(came.len() != went.len());
}

/// What the server says when it closes a connection.
pub proof fn server_interrupt_tells_that_the_server_closes()
    ensures
        server_interrupt().username == "SERVER"@,
        server_interrupt().content == "The SERVER is shutting down this connection."@,
{
}

/// A message is shown with its username in brackets, an arrow, and its content, nothing of them
/// changed.
pub proof fn shown_message_keeps_both_parts(m: MessageView)
    ensures
        shown_message(m).len() == m.username.len() + m.content.len() + 6,
        shown_message(m)[0] == '[',
        forall|i: int|
            0 <= i < m.username.len() ==> shown_message(m)[i + 1] == #[trigger] m.username[i],
        shown_message(m).skip(1int + m.username.len()).take(5) == "] :> "@,
        forall|i: int|
            0 <= i < m.content.len() ==> shown_message(m)[6 + m.username.len() + i]
                == #[trigger] m.content[i],
{
    reveal_strlit("[");
    reveal_strlit("] :> ");
}

/// A message is let through exactly when its username takes at most 120 bytes, its content at
/// most 1024, and its content holds neither a bar nor a backtick. The first of these that fails
/// is the reason of the refusal.
pub proof fn refusals_are_by_length_and_symbols(username: Seq<char>, content: Seq<char>)
    ensures
        refusal(username, content) is None <==> encode_utf8(username).len() <= 120
            && encode_utf8(content).len() <= 1024 && !content.contains('|') && !content.contains('`'),
        refusal(username, content) == Some(Refusal::UsernameTooLong) <==> encode_utf8(username).len()
            > 120,
        refusal(username, content) == Some(Refusal::ContentTooLong) <==> encode_utf8(username).len()
            <= 120 && encode_utf8(content).len() > 1024,
        refusal(username, content) == Some(Refusal::ForbiddenSymbols) <==> encode_utf8(
            username,
        ).len() <= 120 && encode_utf8(content).len() <= 1024 && (content.contains('|')
            || content.contains('`')),
        username_fits(username) <==> encode_utf8(username).len() <= 120,
        content_fits(content) <==> encode_utf8(content).len() <= 1024,
        has_delimiter(content) <==> content.contains('|') || content.contains('`'),
{
}

/// A received message is refused exactly for its lengths.
pub proof fn receipt_refusals_are_by_length(username: Seq<char>, content: Seq<char>)
    ensures
        receipt_refusal(username, content) is None <==> encode_utf8(username).len() <= 120
            && encode_utf8(content).len() <= 1024,
        receipt_refusal(username, content) == Some(Refusal::UsernameTooLong) <==> encode_utf8(
            username,
        ).len() > 120,
        receipt_refusal(username, content) == Some(Refusal::ContentTooLong) <==> encode_utf8(
            username,
        ).len() <= 120 && encode_utf8(content).len() > 1024,
{
}

/// The error tells the reason of the refusal, and a username that is too long is the one it
/// names.
pub proof fn errors_tell_the_refusal(e: ChatError, username: Seq<char>)
    ensures
        reports_refusal(e, Refusal::UsernameTooLong, username) <==> {
            &&& e matches ChatError::UsernameTooLong(name)
            &&& name@ == username
        },
        reports_refusal(e, Refusal::ContentTooLong, username) <==> e == ChatError::ContentTooLong,
        reports_refusal(e, Refusal::ForbiddenSymbols, username) <==> e
            == ChatError::ForbiddenSymbols,
{
}

} // verus!
