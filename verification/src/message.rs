//! The logical messages that travel between client and server, and their
//! canonical text `<Tag>|<payload>`.

use crate::error::ProtocolError;
use crate::encoding::{lemma_encode_injective, lemma_prefix_of_text};
use vstd::prelude::*;
use vstd::string::*;
use vstd::utf8::*;

verus! {

/// A logical message.
#[derive(Debug, PartialEq, Eq)]
pub enum Message {
    /// Asks the server to bind a display name to this connection.
    RegisterUsername(String),
    /// A chat line to be broadcast.
    UserText(String),
    /// Informational text that the server originated.
    ServerInfo(String),
}

/// The mathematical value of a [`Message`]: its variant and its payload as a
/// sequence of characters.
pub enum MessageView {
    RegisterUsername(Seq<char>),
    UserText(Seq<char>),
    ServerInfo(Seq<char>),
}

impl View for Message {
    type V = MessageView;

    open spec fn view(&self) -> MessageView {
        match self {
            Message::RegisterUsername(name) => MessageView::RegisterUsername(name@),
            Message::UserText(text) => MessageView::UserText(text@),
            Message::ServerInfo(text) => MessageView::ServerInfo(text@),
        }
    }
}

impl Clone for Message {
    fn clone(&self) -> (copy: Message)
        ensures
            copy@ == self@,
    {
        match self {
            Message::RegisterUsername(name) => Message::RegisterUsername(name.clone()),
            Message::UserText(text) => Message::UserText(text.clone()),
            Message::ServerInfo(text) => Message::ServerInfo(text.clone()),
        }
    }
}

/// The tag, separator included, that opens the text of a chat line.
pub open spec fn user_text_tag() -> Seq<char> {
    seq!['U', 's', 'e', 'r', 'T', 'e', 'x', 't', '|']
}

/// The tag, separator included, that opens the text of a name registration.
pub open spec fn register_username_tag() -> Seq<char> {
    seq![
        'R', 'e', 'g', 'i', 's', 't', 'e', 'r', 'U', 's', 'e', 'r', 'n', 'a', 'm', 'e', '|',
    ]
}

/// The tag, separator included, that opens the text of a server notice.
pub open spec fn server_info_tag() -> Seq<char> {
    seq!['S', 'e', 'r', 'v', 'e', 'r', 'I', 'n', 'f', 'o', '|']
}

impl MessageView {
    /// The tag of this message's variant, separator included.
    pub open spec fn tag(self) -> Seq<char> {
        match self {
            MessageView::RegisterUsername(_) => register_username_tag(),
            MessageView::UserText(_) => user_text_tag(),
            MessageView::ServerInfo(_) => server_info_tag(),
        }
    }

    /// The payload, taken as it is.
    pub open spec fn payload(self) -> Seq<char> {
        match self {
            MessageView::RegisterUsername(name) => name,
            MessageView::UserText(text) => text,
            MessageView::ServerInfo(text) => text,
        }
    }

    /// The canonical text: the tag, the separator, then the raw payload.
    pub open spec fn text(self) -> Seq<char> {
        self.tag() + self.payload()
    }
}

/// The message that a text denotes: the first tag that opens the text
/// decides the variant, and all that follows the tag is the payload.
pub open spec fn parse_text(text: Seq<char>) -> Result<MessageView, ProtocolError> {
    if user_text_tag().is_prefix_of(text) {
        Ok(MessageView::UserText(text.skip(user_text_tag().len() as int)))
    } else if register_username_tag().is_prefix_of(text) {
        Ok(MessageView::RegisterUsername(text.skip(register_username_tag().len() as int)))
    } else if server_info_tag().is_prefix_of(text) {
        Ok(MessageView::ServerInfo(text.skip(server_info_tag().len() as int)))
    } else {
        Err(ProtocolError::UnknownTag)
    }
}

/// The mathematical value of the outcome of a decoding.
pub open spec fn outcome_view(outcome: Result<Message, ProtocolError>) -> Result<
    MessageView,
    ProtocolError,
> {
    match outcome {
        Ok(message) => Ok(message@),
        Err(error) => Err(error),
    }
}

impl Message {
    /// The canonical text of the message, `<Tag>|<payload>`.
    pub fn to_string(&self) -> (text: String)
        ensures
            text@ == self@.text(),
    {
        proof {
            reveal_strlit("UserText|");
            reveal_strlit("RegisterUsername|");
            reveal_strlit("ServerInfo|");
        }
        match self {
            Message::UserText(v) => {
                assert("UserText|"@ =~= user_text_tag());
                String::from_str("UserText|").concat(v.as_str())
            },
            Message::RegisterUsername(v) => {
                assert("RegisterUsername|"@ =~= register_username_tag());
                String::from_str("RegisterUsername|").concat(v.as_str())
            },
            Message::ServerInfo(v) => {
                assert("ServerInfo|"@ =~= server_info_tag());
                String::from_str("ServerInfo|").concat(v.as_str())
            },
        }
    }

    /// A chat line with the given text.
    pub fn new_user_text(text: String) -> (message: Message)
        ensures
            message@ == MessageView::UserText(text@),
    {
        Message::UserText(text)
    }

    /// A request to register the given display name.
    pub fn new_register_username(username: String) -> (message: Message)
        ensures
            message@ == MessageView::RegisterUsername(username@),
    {
        Message::RegisterUsername(username)
    }
}

/// Whether `bytes` opens with `head`.
fn opens_with(bytes: &[u8], head: &[u8]) -> (found: bool)
    ensures
        found == head@.is_prefix_of(bytes@),
{
    if head.len() > bytes.len() {
        return false;
    }
    let mut i: usize = 0;
    while i < head.len()
        invariant
            i <= head.len() <= bytes.len(),
            head@.subrange(0, i as int) == bytes@.subrange(0, i as int),
        decreases head.len() - i,
    {
        if head[i] != bytes[i] {
            assert(head@[i as int] != bytes@.subrange(0, head@.len() as int)[i as int]);
            return false;
        }
        assert(head@.subrange(0, i + 1) =~= head@.subrange(0, i as int).push(head@[i as int]));
        assert(bytes@.subrange(0, i + 1) =~= bytes@.subrange(0, i as int).push(bytes@[i as int]));
        i += 1;
    }
    assert(head@.subrange(0, i as int) =~= head@);
    true
}

/// What follows `prefix` in `text`, where `text` opens with `prefix`.
fn strip_prefix(text: &str, prefix: &str) -> (rest: Option<String>)
    ensures
        rest is Some <==> prefix@.is_prefix_of(text@),
        rest matches Some(r) ==> r@ == text@.skip(prefix@.len() as int),
{
    let bytes = text.as_bytes();
    let head = prefix.as_bytes();
    proof {
        lemma_prefix_of_text(prefix@, text@);
    }
    if opens_with(bytes, head) {
        let (_, rest) = text.split_at(head.len());
        proof {
            assert(rest.spec_bytes() =~= bytes@.skip(head@.len() as int));
            lemma_encode_injective(rest@, text@.skip(prefix@.len() as int));
        }
        Some(rest.to_owned())
    } else {
        None
    }
}

/// Reads a message out of its canonical text.
///
/// The text must open with one of the three tags; the payload is all that
/// follows the tag, kept as it is. A text that opens with no tag is refused
/// with [`ProtocolError::UnknownTag`].
pub fn parse_message(message: String) -> (result: Result<Message, ProtocolError>)
    ensures
        outcome_view(result) == parse_text(message@),
{
    proof {
        reveal_strlit("UserText|");
        reveal_strlit("RegisterUsername|");
        reveal_strlit("ServerInfo|");
        assert("UserText|"@ =~= user_text_tag());
        assert("RegisterUsername|"@ =~= register_username_tag());
        assert("ServerInfo|"@ =~= server_info_tag());
    }
    let text = message.as_str();
    if let Some(payload) = strip_prefix(text, "UserText|") {
        Ok(Message::UserText(payload))
    } else if let Some(payload) = strip_prefix(text, "RegisterUsername|") {
        Ok(Message::RegisterUsername(payload))
    } else if let Some(payload) = strip_prefix(text, "ServerInfo|") {
        Ok(Message::ServerInfo(payload))
    } else {
        Err(ProtocolError::UnknownTag)
    }
}

} // verus!
