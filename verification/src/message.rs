//! Chat messages: what makes one acceptable, and how it travels to listeners.

use vstd::prelude::*;
use vstd::string::*;
use crate::text::{blank, is_blank, prefix, truncate};

verus! {

/// A nickname is cut after this many characters.
pub const NICKNAME_LIMIT: usize = 30;

/// One line of chat.
#[derive(Clone, Debug, PartialEq, Eq)]
pub struct Message {
    pub nickname: String,
    pub content: String,
}

/// A message as the contracts see it: two texts.
pub struct MessageView {
    pub nickname: Seq<char>,
    pub content: Seq<char>,
}

impl View for Message {
    type V = MessageView;

    open spec fn view(&self) -> MessageView {
        MessageView { nickname: self.nickname@, content: self.content@ }
    }
}

/// The messages of `s` as the contracts see them, in the same order.
pub open spec fn views(s: Seq<Message>) -> Seq<MessageView> {
    Seq::new(s.len(), |i: int| s[i]@)
}

/// A message says nothing when its nickname or its content is blank.
pub open spec fn degenerate(m: MessageView) -> bool {
    blank(m.nickname) || blank(m.content)
}

/// The form in which a message is kept: the nickname cut to
/// [`NICKNAME_LIMIT`] characters, the content as it came.
pub open spec fn normalized(m: MessageView) -> MessageView {
    MessageView { nickname: prefix(m.nickname, NICKNAME_LIMIT as nat), content: m.content }
}

/// What [`Message::accept`] makes of a message.
pub open spec fn accepted(m: MessageView) -> Option<MessageView> {
    if degenerate(m) {
        None
    } else {
        Some(normalized(m))
    }
}

/// The JSON string literal for `s`, quotes and escapes included, as
/// `serde_json::to_string` writes it; `None` where it reports an error.
pub uninterp spec fn json_text(s: Seq<char>) -> Option<Seq<char>>;

/// The JSON object that carries two already encoded string literals.
pub open spec fn framed(nickname_json: Seq<char>, content_json: Seq<char>) -> Seq<char> {
    "{\"nickname\":"@ + nickname_json + ",\"content\":"@ + content_json + "}"@
}

/// The text frame that announces `m` to a listener, if both fields encode.
pub open spec fn wire_payload(m: MessageView) -> Option<Seq<char>> {
    match (json_text(m.nickname), json_text(m.content)) {
        (Some(n), Some(c)) => Some(framed(n, c)),
        _ => None,
    }
}

/// Degenerate rejection, for the message alone: a message whose nickname or
/// content is blank is not accepted, and so has no payload either.
pub proof fn lemma_degenerate_refused(m: MessageView)
    requires
        blank(m.nickname) || blank(m.content),
    ensures
        accepted(m) is None,
{
}

/// Nickname truncation: an accepted message keeps the first thirty
/// characters of its nickname, or all of it if it has no more, and its whole
/// content. In particular a nickname of forty characters is kept as its
/// first thirty.
pub proof fn lemma_nickname_cut(m: MessageView)
    requires
        !degenerate(m),
    ensures
        accepted(m) is Some,
        accepted(m)->0.content == m.content,
        accepted(m)->0.nickname.len() == if m.nickname.len() <= 30 {
            m.nickname.len()
        } else {
            30
        },
        accepted(m)->0.nickname == m.nickname.take(accepted(m)->0.nickname.len() as int),
{
    crate::text::lemma_prefix_len(m.nickname, NICKNAME_LIMIT as nat);
}

/// Makes `serde_json::Error` known to the verifier, as a value that is
/// carried and never looked into.
#[verifier::external_type_specification]
#[verifier::external_body]
pub struct ExJsonError(serde_json::Error);

/// Calls `serde_json::to_string` on a string slice. Trusted: the outcome is a
/// function of the characters alone; this crate knows it only as [`json_text`].
#[verifier::external_body]
fn json_string(s: &str) -> (r: Result<String, serde_json::Error>)
    ensures
        match r {
            Ok(t) => json_text(s@) == Some(t@),
            Err(_) => json_text(s@) is None,
        },
{
    serde_json::to_string(s)
}

/// Puts two encoded string literals into the object sent to listeners.
pub fn frame_payload(nickname_json: &str, content_json: &str) -> (r: String)
    ensures
        r@ == framed(nickname_json@, content_json@),
{
    let mut out = String::from_str("{\"nickname\":");
    out.append(nickname_json);
    out.append(",\"content\":");
    out.append(content_json);
    out.append("}");
    out
}

impl Message {
    pub fn new(nickname: String, content: String) -> (m: Message)
        ensures
            m@ == (MessageView { nickname: nickname@, content: content@ }),
    {
        Message { nickname, content }
    }

    /// A copy that reads the same.
    pub fn duplicate(&self) -> (m: Message)
        ensures
            m@ == self@,
    {
        Message { nickname: self.nickname.clone(), content: self.content.clone() }
    }

    /// Whether the nickname or the content is blank.
    pub fn is_degenerate(&self) -> (r: bool)
        ensures
            r == degenerate(self@),
    {
        is_blank(self.nickname.as_str()) || is_blank(self.content.as_str())
    }

    /// Refuses a degenerate message; otherwise cuts the nickname to
    /// [`NICKNAME_LIMIT`] characters and leaves the content alone.
    pub fn accept(self) -> (r: Option<Message>)
        ensures
            match r {
                Some(m) => accepted(self@) == Some(m@),
                None => accepted(self@) is None,
            },
    {
        if self.is_degenerate() {
            None
        } else {
            let nickname = truncate(self.nickname.as_str(), NICKNAME_LIMIT);
            Some(Message { nickname, content: self.content })
        }
    }

    /// Encodes the message as the JSON text frame pushed to listeners.
    pub fn payload(&self) -> (r: Option<String>)
        ensures
            match r {
                Some(p) => wire_payload(self@) == Some(p@),
                None => wire_payload(self@) is None,
            },
    {
        match json_string(self.nickname.as_str()) {
            Err(_) => None,
            Ok(nickname_json) => match json_string(self.content.as_str()) {
                Err(_) => None,
                Ok(content_json) => Some(
                    frame_payload(nickname_json.as_str(), content_json.as_str()),
                ),
            },
        }
    }
}

} // verus!
