//! What the client decides.

use vstd::prelude::*;
use vstd::utf8::*;

use crate::error::ChatError;
use crate::message::Message;
use crate::text::{decode, trim};

verus! {

/// The content of the message by which a client introduces its user.
pub const HELO: &'static str = "helo";

/// Whether the name can be taken: it must be short enough for messages.
pub open spec fn is_acceptable_name(name: Seq<char>) -> bool {
    crate::message::username_fits(name)
}

/// The name that the user typed, without the white space around it, unless it is too long.
pub fn choose_name(line: &str) -> (r: Option<String>)
    ensures
        match r {
            Some(name) => {
                &&& is_acceptable_name(name@)
                &&& name@ == crate::text::trimmed(line@)
            },
            None => !is_acceptable_name(crate::text::trimmed(line@)),
        },
{
    let name = trim(line);
    if name.as_str().as_bytes().len() <= Message::MAX_USERNAME_LEN {
        Some(name)
    } else {
        None
    }
}

/// What the client sends first: the JSON of the message that introduces the user. It is
/// refused only where the name is too long.
pub fn introduction(name: &str) -> (r: Result<String, ChatError>)
    ensures
        match r {
            Ok(text) => {
                &&& crate::message::username_fits(name@)
                &&& text@ == crate::json::json_message(name@, HELO@)
            },
            Err(e) => {
                &&& !crate::message::username_fits(name@)
                &&& crate::message::reports_refusal(
                    e,
                    crate::message::Refusal::UsernameTooLong,
                    name@,
                )
            },
        },
{
    proof {
        reveal_strlit("helo");
        assert(is_ascii_chars(HELO@));
        is_ascii_chars_encode_utf8(HELO@);
    }
    match Message::new(name, HELO) {
        Ok(msg) => msg.serialized(),
        Err(e) => Err(e),
    }
}

/// What happens to the task that reads what the user types.
pub enum TypingEvent {
    /// The client shuts down.
    ShutDown,
    /// The user typed these bytes, or none at the end of the input.
    Typed(Vec<u8>),
}

/// What the task that reads what the user types does.
pub enum TypingAction {
    /// Ends.
    Stop,
    /// Sends the packet and has the prompt announced; then shows the prompt if it is due.
    Send { packet: String, prompt: bool },
    /// Tells the user why the message was refused, and shows the prompt.
    Refuse(ChatError),
    /// Shows the prompt, and reads on.
    Prompt,
}

/// Whether the typed bytes end a line.
pub open spec fn ends_line(typed: Seq<u8>) -> bool {
    typed.len() > 0 && typed.last() == 0x0a
}

/// The typed bytes without the end of the line.
pub open spec fn line_of(typed: Seq<u8>) -> Seq<u8> {
    if ends_line(typed) {
        typed.drop_last()
    } else {
        typed
    }
}

/// The packet in which the client sends a message.
pub open spec fn packet(json: Seq<char>) -> Seq<char> {
    "| "@ + json + " |"@
}

/// Decides what becomes of what the user typed. The end of a line brings the prompt back, and
/// is itself never sent. The end of the input ends the task, and so do bytes that are no text.
pub fn on_typing(name: &str, event: TypingEvent) -> (r: Result<TypingAction, ChatError>)
    ensures
        match event {
            TypingEvent::ShutDown => r matches Ok(action) && action is Stop,
            TypingEvent::Typed(typed) => {
                let line = line_of(typed@);
                let text = decode_utf8(line);
                if typed@.len() == 0 {
                    r matches Ok(action) && action is Stop
                } else if line.len() == 0 {
                    r matches Ok(action) && action is Prompt
                } else if !valid_utf8(line) {
                    r matches Err(e) && crate::text::reports_not_utf8(e, line)
                } else {
                    match crate::message::refusal(name@, text) {
                        Some(why) => {
                            &&& r matches Ok(TypingAction::Refuse(e))
                            &&& crate::message::reports_refusal(e, why, name@)
                        },
                        None => {
                            &&& r matches Ok(TypingAction::Send { packet: sent, prompt })
                            &&& sent@ == packet(crate::json::json_message(name@, text))
                            &&& prompt == ends_line(typed@)
                        },
                    }
                }
            },
        },
{
    let mut typed = match event {
        TypingEvent::ShutDown => return Ok(TypingAction::Stop),
        TypingEvent::Typed(typed) => typed,
    };
    if typed.len() == 0 {
        return Ok(TypingAction::Stop);
    }
    let ghost all = typed@;
    let prompt = typed[typed.len() - 1] == 0x0a;
    if prompt {
        typed.pop();
    }
    assert(typed@ == line_of(all));
    if typed.len() == 0 {
        return Ok(TypingAction::Prompt);
    }
    let text = match decode(typed) {
        Ok(text) => text,
        Err(e) => return Err(e),
    };
    let msg = match Message::new(name, text.as_str()) {
        Ok(msg) => msg,
        Err(e) => return Ok(TypingAction::Refuse(e)),
    };
    let json = match msg.serialized() {
        Ok(json) => json,
        Err(e) => return Err(e),
    };
    let mut packet = "| ".to_owned();
    packet.append(json.as_str());
    packet.append(" |");
    Ok(TypingAction::Send { packet, prompt })
}

/// What happens to the task that shows what the server sends.
pub enum ShowingEvent {
    /// The client shuts down.
    ShutDown,
    /// A message was sent, so that a new prompt is due.
    NewPrompt,
    /// Nobody announces prompts any more.
    NoMorePrompts,
    /// The server sent these bytes, or none at the end of the connection.
    Received(Vec<u8>),
}

/// What the task that shows what the server sends does.
pub enum ShowingAction {
    /// Ends.
    Stop,
    /// Leaves room for the prompt.
    MakeRoom,
    /// Shows the message of which this is the JSON.
    Show(String),
}

/// Decides what becomes of what the server sent.
pub fn on_showing(event: ShowingEvent) -> (r: Result<ShowingAction, ChatError>)
    ensures
        match event {
            ShowingEvent::ShutDown => r matches Ok(action) && action is Stop,
            ShowingEvent::NewPrompt => r matches Ok(action) && action is MakeRoom,
            ShowingEvent::NoMorePrompts => r matches Err(e) && e is NoNewPrompt,
            ShowingEvent::Received(bytes) => {
                if bytes@.len() == 0 {
                    r matches Ok(action) && action is Stop
                } else if !valid_utf8(bytes@) {
                    r matches Err(e) && crate::text::reports_not_utf8(e, bytes@)
                } else {
                    &&& r matches Ok(ShowingAction::Show(json))
                    &&& json@ == decode_utf8(bytes@)
                }
            },
        },
{
    match event {
        ShowingEvent::ShutDown => Ok(ShowingAction::Stop),
        ShowingEvent::NewPrompt => Ok(ShowingAction::MakeRoom),
        ShowingEvent::NoMorePrompts => Err(ChatError::NoNewPrompt),
        ShowingEvent::Received(bytes) => {
            if bytes.len() == 0 {
                return Ok(ShowingAction::Stop);
            }
            match decode(bytes) {
                Ok(json) => Ok(ShowingAction::Show(json)),
                Err(e) => Err(e),
            }
        },
    }
}

/// A name that could be chosen is never the reason to refuse a message.
pub proof fn chosen_name_is_never_refused(name: Seq<char>, content: Seq<char>)
    requires
        is_acceptable_name(name),
    ensures
        crate::message::username_fits(name),
        crate::message::refusal(name, content) != Some(crate::message::Refusal::UsernameTooLong),
{
}

/// A typed line loses nothing but the end of the line: with a line feed behind it, it is what was
/// typed, and without one there it is the typed bytes themselves.
pub proof fn line_loses_only_its_end(typed: Seq<u8>)
    ensures
        ends_line(typed) <==> typed.len() > 0 && typed[typed.len() - 1] == 0x0a,
        typed.len() > 0 && typed[typed.len() - 1] == 0x0a ==> line_of(typed) + seq![0x0au8] == typed,
        typed.len() == 0 || typed[typed.len() - 1] != 0x0a ==> line_of(typed) == typed,
{
}

/// What is typed before the end of a line makes the line, whether the end follows or not.
pub proof fn end_of_line_makes_no_difference_to_the_line(typed: Seq<u8>)
    requires
        !ends_line(typed),
    ensures
        line_of(typed + seq![0x0au8]) == typed,
        line_of(typed) == typed,
        ends_line(typed + seq![0x0au8]),
{
    assert(line_of(typed + seq![0x0au8]) == typed);
}

/// A packet is the JSON between a bar and a blank on either side, nothing of it changed.
pub proof fn packet_keeps_the_json(json: Seq<char>)
    ensures
        packet(json).len() == json.len() + 4,
        packet(json)[0] == '|',
        packet(json)[1] == ' ',
        forall|i: int| 0 <= i < json.len() ==> packet(json)[i + 2] == #[trigger] json[i],
        packet(json)[2int + json.len()] == ' ',
        packet(json)[3int + json.len()] == '|',
{
    reveal_strlit("| ");
    reveal_strlit(" |");
}

/// A name can be taken exactly when it takes at most 120 bytes.
pub proof fn names_are_limited_in_bytes(name: Seq<char>)
    ensures
        is_acceptable_name(name) <==> encode_utf8(name).len() <= 120,
{
}

/// A client greets with `helo`.
pub proof fn greeting_is_helo()
    ensures
        HELO@ == "helo"@,
{
}

} // verus!
