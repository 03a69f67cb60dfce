//! The pakkets: texts between delimiters, as they travel over a connection.

use vstd::prelude::*;
use vstd::std_specs::convert::FromSpecImpl;

use crate::error::ChatError;
use crate::message::Message;

verus! {

/// A text between delimiters. It is meant to carry the JSON of a message, but nothing
/// ensures that what stands between the delimiters is of any kind.
///
/// There are two ways to delimit. [`TcpPakket::new_to_pak`] and [`TcpPakket::new_pakked`]
/// open with `INIT_DELIMITER` and close with `END_DELIMITER`, so that a reader can tell where
/// a pakket ends. [`TcpPakket::new`] and the conversion from a [`Message`] use `DELIMITER` on
/// both sides.
#[derive(Debug, PartialEq)]
pub struct TcpPakket(String);

impl View for TcpPakket {
    type V = Seq<char>;

    closed spec fn view(&self) -> Seq<char> {
        self.0@
    }
}

/// The text between the delimiters that mark a beginning and an end.
pub open spec fn pakked(text: Seq<char>) -> Seq<char> {
    seq![TcpPakket::INIT_DELIMITER as char] + text + seq![TcpPakket::END_DELIMITER as char]
}

/// Whether the text begins with the first delimiter and ends with the second.
pub open spec fn is_pakked(text: Seq<char>) -> bool {
    &&& text.len() > 0
    &&& text[0] == TcpPakket::INIT_DELIMITER as char
    &&& text.last() == TcpPakket::END_DELIMITER as char
}

/// The text between two equal delimiters.
pub open spec fn delimited(text: Seq<char>) -> Seq<char> {
    seq![TcpPakket::DELIMITER] + text + seq![TcpPakket::DELIMITER]
}

/// Whether the text begins with one delimiter and ends with another equal one.
pub open spec fn is_delimited(text: Seq<char>) -> bool {
    &&& text.len() >= 2
    &&& text[0] == TcpPakket::DELIMITER
    &&& text.last() == TcpPakket::DELIMITER
}

/// What stands between the first character and the last.
pub open spec fn unpacked(text: Seq<char>) -> Seq<char> {
    text.subrange(1, text.len() - 1)
}

impl TcpPakket {
    /// The delimiter on both sides of a pakket that is made by [`TcpPakket::new`].
    pub const DELIMITER: char = '|';

    /// The byte `|`, which marks the beginning of a pakket. Like the one that marks the end it is
    /// ASCII, and the two are different.
    pub const INIT_DELIMITER: u8 = 0x7c;

    /// The backtick, which marks the end of a pakket.
    pub const END_DELIMITER: u8 = 0x60;

    #[verifier::type_invariant]
    spec fn is_well_delimited(self) -> bool {
        is_pakked(self.0@) || is_delimited(self.0@)
    }

    /// Takes a text that already stands between two delimiters `DELIMITER`.
    pub fn new(pakket_str: &str) -> (r: Result<TcpPakket, ChatError>)
        ensures
            match r {
                Ok(pakket) => is_delimited(pakket_str@) && pakket@ == pakket_str@,
                Err(e) => !is_delimited(pakket_str@) && e == ChatError::WrongDelimiters,
            },
    {
        let len = pakket_str.unicode_len();
        if len < 2 || pakket_str.get_char(0) != TcpPakket::DELIMITER || pakket_str.get_char(len - 1)
            != TcpPakket::DELIMITER {
            return Err(ChatError::WrongDelimiters);
        }
        Ok(TcpPakket(pakket_str.to_owned()))
    }

    /// Puts a text between the delimiters that mark a beginning and an end.
    pub fn new_to_pak(string: &str) -> (r: TcpPakket)
        ensures
            r@ == pakked(string@),
    {
        proof {
            reveal_strlit("|");
            reveal_strlit("`");
        }
        let mut pakket = "|".to_owned();
        pakket.append(string);
        pakket.append("`");
        TcpPakket(pakket)
    }

    /// Takes a text that already stands between the delimiters that mark a beginning and an
    /// end.
    pub fn new_pakked(pakket_str: &str) -> (r: Result<TcpPakket, ChatError>)
        ensures
            match r {
                Ok(pakket) => is_pakked(pakket_str@) && pakket@ == pakket_str@,
                Err(e) => !is_pakked(pakket_str@) && e == ChatError::WrongDelimiters,
            },
    {
        let len = pakket_str.unicode_len();
        if len == 0 || pakket_str.get_char(0) != TcpPakket::INIT_DELIMITER as char
            || pakket_str.get_char(len - 1) != TcpPakket::END_DELIMITER as char {
            return Err(ChatError::WrongDelimiters);
        }
        Ok(TcpPakket(pakket_str.to_owned()))
    }

    /// What stands between the delimiters.
    pub fn unpack(self) -> (r: String)
        ensures
            r@ == unpacked(self@),
    {
        proof {
            use_type_invariant(&self);
        }
        let len = self.0.as_str().unicode_len();
        self.0.as_str().substring_char(1, len - 1).to_owned()
    }
}

impl Clone for TcpPakket {
    fn clone(&self) -> (r: Self)
        ensures
            r == *self,
    {
        proof {
            use_type_invariant(self);
        }
        TcpPakket(self.0.clone())
    }
}

impl FromSpecImpl<Message> for TcpPakket {
    open spec fn obeys_from_spec() -> bool {
        false
    }

    open spec fn from_spec(msg: Message) -> TcpPakket {
        arbitrary()
    }
}

impl From<Message> for TcpPakket {
    /// Puts the JSON of a message between two delimiters `DELIMITER`.
    fn from(msg: Message) -> (r: TcpPakket)
        ensures
            r@ == delimited(crate::json::json_message(msg@.username, msg@.content)),
    {
        proof {
            reveal_strlit("|");
        }
        let mut pakket = "|".to_owned();
        pakket.append(msg.serialized().unwrap().as_str());
        pakket.append("|");
        TcpPakket(pakket)
    }
}

/// The two delimiters are ASCII, and they are different from each other.
pub proof fn delimiters_are_valid()
    ensures
        TcpPakket::INIT_DELIMITER <= 0x7f,
        TcpPakket::END_DELIMITER <= 0x7f,
        TcpPakket::INIT_DELIMITER != TcpPakket::END_DELIMITER,
{
}

/// Unpacking gives back the text that was packed.
pub proof fn unpacking_undoes_packing(text: Seq<char>)
    ensures
        is_pakked(pakked(text)),
        unpacked(pakked(text)) == text,
        is_delimited(delimited(text)),
        unpacked(delimited(text)) == text,
{
}

/// A text that is taken as a pakket is its unpacked text between the delimiters.
pub proof fn packing_undoes_unpacking(text: Seq<char>)
    ensures
        is_pakked(text) ==> pakked(unpacked(text)) == text,
        is_delimited(text) ==> delimited(unpacked(text)) == text,
{
}

/// Packing changes nothing of the text: it stands behind a bar, character by character, and in
/// front of a backtick, or of another bar.
pub proof fn packing_keeps_every_character(text: Seq<char>)
    ensures
        pakked(text).len() == text.len() + 2,
        pakked(text)[0] == '|',
        forall|i: int| 0 <= i < text.len() ==> pakked(text)[i + 1] == #[trigger] text[i],
        pakked(text).last() == '`',
        delimited(text).len() == text.len() + 2,
        delimited(text)[0] == '|',
        forall|i: int| 0 <= i < text.len() ==> delimited(text)[i + 1] == #[trigger] text[i],
        delimited(text).last() == '|',
{
}

/// Unpacking gives what stands between the first character and the last, character by
/// character.
pub proof fn unpacking_keeps_every_character(text: Seq<char>)
    requires
        text.len() >= 2,
    ensures
        unpacked(text).len() == text.len() - 2,
        forall|i: int| 0 <= i < text.len() - 2 ==> #[trigger] unpacked(text)[i] == text[i + 1],
{
}

/// A text is taken as a pakket exactly when it begins with a bar and ends with a backtick, or
/// with another bar, whatever stands between them.
pub proof fn only_the_ends_of_a_pakket_matter(text: Seq<char>)
    ensures
        is_pakked(text) <==> text.len() >= 2 && text[0] == '|' && text.last() == '`',
        is_delimited(text) <==> text.len() >= 2 && text[0] == '|' && text.last() == '|',
{
}

} // verus!
