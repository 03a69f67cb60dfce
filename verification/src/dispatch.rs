//! The dispatches: messages on their way through the server.

use vstd::prelude::*;

use crate::message::{Message, MessageView, UserStatus};
use crate::text::decimal_text;

verus! {

/// What a [`Dispatch`] carries, and from whom.
#[verifier::ext_equal]
pub struct DispatchView {
    pub userid: usize,
    pub msg: MessageView,
}

/// The unit that the server alone uses: a message with the identifier of the user it comes
/// from. By the identifier the client handlers keep the messages of their own clients back,
/// even when several users have the same name.
#[derive(Debug)]
pub struct Dispatch {
    userid: usize,
    msg: Message,
}

impl View for Dispatch {
    type V = DispatchView;

    closed spec fn view(&self) -> DispatchView {
        DispatchView { userid: self.userid, msg: self.msg@ }
    }
}

impl Clone for Dispatch {
    fn clone(&self) -> (r: Self)
        ensures
            r == *self,
    {
        Dispatch { userid: self.userid, msg: self.msg.clone() }
    }
}

/// How a dispatch is shown in the log of the server.
pub open spec fn shown_dispatch(d: DispatchView) -> Seq<char> {
    "[#"@ + crate::text::decimal(d.userid as nat) + "] <"@ + d.msg.username + ","@ + d.msg.content
        + ">"@
}

impl Dispatch {
    /// A message of the given user.
    pub fn new(userid: usize, msg: Message) -> (r: Dispatch)
        ensures
            r@ == (DispatchView { userid, msg: msg@ }),
    {
        Dispatch { userid, msg }
    }

    /// The message alone.
    pub fn into_msg(self) -> (r: Message)
        ensures
            r@ == self@.msg,
    {
        self.msg
    }

    /// Whom the message comes from.
    pub fn get_userid(&self) -> (r: usize)
        ensures
            r == self@.userid,
    {
        self.userid
    }

    /// The dispatch by which the server tells that a user came or went.
    pub fn craft_status_change_dispatch(
        userid: usize,
        username: &str,
        user_status: UserStatus,
    ) -> (r: Dispatch)
        ensures
            r@ == (DispatchView {
                userid,
                msg: crate::message::status_change(username@, user_status),
            }),
    {
        Dispatch { userid, msg: Message::craft_status_change_msg(username, user_status) }
    }

    /// Shows the dispatch in the log of the server.
    pub fn display(&self) -> (r: String)
        ensures
            r@ == shown_dispatch(self@),
    {
        let mut text = "[#".to_owned();
        text.append(decimal_text(self.userid).as_str());
        text.append("] <");
        text.append(self.msg.get_username().as_str());
        text.append(",");
        text.append(self.msg.get_content().as_str());
        text.append(">");
        text
    }
}

/// A dispatch is shown with its identifier, its username and its content, nothing of them
/// changed.
pub proof fn shown_dispatch_keeps_every_part(d: DispatchView)
    ensures
        ({
            let shown = shown_dispatch(d);
            let id = crate::text::decimal(d.userid as nat);
            let name = d.msg.username;
            let words = d.msg.content;
            &&& shown.len() == id.len() + name.len() + words.len() + 7
            &&& shown.take(2) == seq!['[', '#']
            &&& shown.skip(2).take(id.len() as int) == id
            &&& shown.skip(2int + id.len()).take(3) == seq![']', ' ', '<']
            &&& shown.skip(5int + id.len()).take(name.len() as int) == name
            &&& shown[5int + id.len() + name.len()] == ','
            &&& shown.skip(6int + id.len() + name.len()).take(words.len() as int) == words
            &&& shown.last() == '>'
        }),
{
    reveal_strlit("[#");
    reveal_strlit("] <");
    reveal_strlit(",");
    reveal_strlit(">");
}

} // verus!
