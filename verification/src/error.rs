//! What can go wrong in the chat.

use vstd::prelude::*;

use crate::message::Message;
use crate::text::decimal_text;

verus! {

/// Every failure that the library reports.
#[derive(Debug)]
pub enum ChatError {
    /// A thread panicked while it held the pool of identifiers.
    IdPoolPoisoned,
    /// Every identifier of the pool is in use.
    NoIdsLeft,
    /// The given username takes more than `Message::MAX_USERNAME_LEN` bytes.
    UsernameTooLong(String),
    /// The content takes more than `Message::MAX_CONTENT_LEN` bytes.
    ContentTooLong,
    /// The content holds a delimiter of the pakkets.
    ForbiddenSymbols,
    /// The text does not begin and end as a pakket does.
    WrongDelimiters,
    /// A wave without bytes.
    EmptyWave,
    /// The bytes are no text; the reason is given.
    NotUtf8(String),
    /// The text is not the JSON of a message; the reason is given.
    Json(String),
    /// The connection could not be read any more.
    ReaderLeft,
    /// The named task was told to shut down before it knew its user.
    ShutdownStarted(String),
    /// The named task was greeted by something else than the greeting.
    HeloNotReceived(String),
    /// The task that prompts the user is gone.
    NoNewPrompt,
}

impl ChatError {
    /// What the user is told.
    pub open spec fn text(self) -> Seq<char> {
        match self {
            ChatError::IdPoolPoisoned => "The mutex of the id pool was poisoned."@,
            ChatError::NoIdsLeft => "No ids left in the id pool."@,
            ChatError::UsernameTooLong(username) => "The username '"@ + username@
                + "' is too long, it must be at most "@ + crate::text::decimal(
                Message::MAX_USERNAME_LEN as nat,
            ) + " bytes long!"@,
            ChatError::ContentTooLong => "The content is too long, it must be at most "@
                + crate::text::decimal(Message::MAX_CONTENT_LEN as nat) + " bytes long!"@,
            ChatError::ForbiddenSymbols =>
            "The symbols '|' and '`' are not allowed in the messages!"@,
            ChatError::WrongDelimiters =>
            "This string does not have the correct delimiters to be a pakket."@,
            ChatError::EmptyWave =>
            "The wave buffer is empty even though the reader read  a non-null amount of bytes!"@,
            ChatError::NotUtf8(reason) => reason@,
            ChatError::Json(reason) => reason@,
            ChatError::ReaderLeft => "## The TCP-reader left us. RIP."@,
            ChatError::ShutdownStarted(task) => task@ + ":> The shutdown process started."@,
            ChatError::HeloNotReceived(task) => task@ + ":> The 'helo' message was not received"@,
            ChatError::NoNewPrompt => "No new prompt transmitted"@,
        }
    }

    /// Tells the user what went wrong.
    pub fn describe(&self) -> (r: String)
        ensures
            r@ == self.text(),
    {
        match self {
            ChatError::IdPoolPoisoned => "The mutex of the id pool was poisoned.".to_owned(),
            ChatError::NoIdsLeft => "No ids left in the id pool.".to_owned(),
            ChatError::UsernameTooLong(username) => {
                let mut text = "The username '".to_owned();
                text.append(username.as_str());
                text.append("' is too long, it must be at most ");
                text.append(decimal_text(Message::MAX_USERNAME_LEN).as_str());
                text.append(" bytes long!");
                text
            },
            ChatError::ContentTooLong => {
                let mut text = "The content is too long, it must be at most ".to_owned();
                text.append(decimal_text(Message::MAX_CONTENT_LEN).as_str());
                text.append(" bytes long!");
                text
            },
            ChatError::ForbiddenSymbols => {
                "The symbols '|' and '`' are not allowed in the messages!".to_owned()
            },
            ChatError::WrongDelimiters => {
                "This string does not have the correct delimiters to be a pakket.".to_owned()
            },
            ChatError::EmptyWave => {
                "The wave buffer is empty even though the reader read  a non-null amount of bytes!".to_owned()
            },
            ChatError::NotUtf8(reason) => reason.clone(),
            ChatError::Json(reason) => reason.clone(),
            ChatError::ReaderLeft => "## The TCP-reader left us. RIP.".to_owned(),
            ChatError::ShutdownStarted(task) => {
                let mut text = task.clone();
                text.append(":> The shutdown process started.");
                text
            },
            ChatError::HeloNotReceived(task) => {
                let mut text = task.clone();
                text.append(":> The 'helo' message was not received");
                text
            },
            ChatError::NoNewPrompt => "No new prompt transmitted".to_owned(),
        }
    }
}

proof fn limits_in_decimal()
    ensures
        crate::text::decimal(Message::MAX_USERNAME_LEN as nat) == "120"@,
        crate::text::decimal(Message::MAX_CONTENT_LEN as nat) == "1024"@,
{
    reveal_strlit("120");
    reveal_strlit("1024");
    crate::text::decimal_is_positional(0, 1);
    crate::text::decimal_is_positional(1, 2);
    crate::text::decimal_is_positional(12, 0);
    crate::text::decimal_is_positional(1, 0);
    crate::text::decimal_is_positional(10, 2);
    crate::text::decimal_is_positional(102, 4);
    assert(crate::text::decimal(120) == "120"@);
    assert(crate::text::decimal(1024) == "1024"@);
}

/// What the user is told names the limits in bytes, and the username that is too long, nothing of
/// it changed.
pub proof fn limits_are_told(username: String)
    ensures
        ChatError::UsernameTooLong(username).text() == "The username '"@ + username@
            + "' is too long, it must be at most 120 bytes long!"@,
        ChatError::ContentTooLong.text() == "The content is too long, it must be at most 1024 bytes long!"@,
        ChatError::ForbiddenSymbols.text()
            == "The symbols '|' and '`' are not allowed in the messages!"@,
{
    limits_in_decimal();
    reveal_strlit("120");
    reveal_strlit("1024");
    reveal_strlit("' is too long, it must be at most ");
    reveal_strlit(" bytes long!");
    reveal_strlit("' is too long, it must be at most 120 bytes long!");
    reveal_strlit("The content is too long, it must be at most ");
    reveal_strlit("The content is too long, it must be at most 1024 bytes long!");
    assert("' is too long, it must be at most "@ + "120"@ + " bytes long!"@
        == "' is too long, it must be at most 120 bytes long!"@);
    assert("The content is too long, it must be at most "@ + "1024"@ + " bytes long!"@
        == "The content is too long, it must be at most 1024 bytes long!"@);
    let end = "' is too long, it must be at most "@ + "120"@ + " bytes long!"@;
    assert(ChatError::UsernameTooLong(username).text() == "The username '"@ + username@ + end);
}

/// What is told of a failure whose reason comes from elsewhere is that reason, and what is told
/// of a task begins with its name.
pub proof fn reasons_and_tasks_are_told(reason: String)
    ensures
        ChatError::NotUtf8(reason).text() == reason@,
        ChatError::Json(reason).text() == reason@,
        ChatError::ShutdownStarted(reason).text() == reason@ + ":> The shutdown process started."@,
        ChatError::HeloNotReceived(reason).text() == reason@
            + ":> The 'helo' message was not received"@,
{
}

/// The failures that are told in the same words each time.
pub proof fn fixed_failures_are_told()
    ensures
        ChatError::IdPoolPoisoned.text() == "The mutex of the id pool was poisoned."@,
        ChatError::NoIdsLeft.text() == "No ids left in the id pool."@,
        ChatError::WrongDelimiters.text()
            == "This string does not have the correct delimiters to be a pakket."@,
        ChatError::EmptyWave.text()
            == "The wave buffer is empty even though the reader read  a non-null amount of bytes!"@,
        ChatError::ReaderLeft.text() == "## The TCP-reader left us. RIP."@,
        ChatError::NoNewPrompt.text() == "No new prompt transmitted"@,
{
}

} // verus!
