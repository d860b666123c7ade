//! Texts that a plugin shows to the user, as they are or to be translated.
use vstd::prelude::*;
use crate::text::{copy_texts, views};

verus! {

/// A message to be looked up in the translations of a plugin.
#[derive(Debug, PartialEq, Eq)]
pub struct LocalizedMessage {
    pub plugin_id: String,
    pub msgid: String,
    pub arguments: Vec<String>,
}

/// A text for the user.
#[derive(Debug, PartialEq, Eq)]
pub enum LocalizedText {
    Raw(String),
    Message(LocalizedMessage),
}

pub struct MessageView {
    pub plugin_id: Seq<char>,
    pub msgid: Seq<char>,
    pub arguments: Seq<Seq<char>>,
}

pub enum LocalizedView {
    Raw(Seq<char>),
    Message(MessageView),
}

impl View for LocalizedMessage {
    type V = MessageView;

    open spec fn view(&self) -> MessageView {
        MessageView {
            plugin_id: self.plugin_id@,
            msgid: self.msgid@,
            arguments: views(self.arguments@),
        }
    }
}

impl View for LocalizedText {
    type V = LocalizedView;

    open spec fn view(&self) -> LocalizedView {
        match *self {
            LocalizedText::Raw(text) => LocalizedView::Raw(text@),
            LocalizedText::Message(message) => LocalizedView::Message(message@),
        }
    }
}

impl LocalizedView {
    pub open spec fn none() -> LocalizedView {
        LocalizedView::Raw(Seq::empty())
    }

    /// The text that is shown where no translation is at hand.
    pub open spec fn text(self) -> Seq<char> {
        match self {
            LocalizedView::Raw(text) => text,
            LocalizedView::Message(message) => message.msgid,
        }
    }
}

impl Clone for LocalizedMessage {
    fn clone(&self) -> (copy: Self)
        ensures
            copy@ == self@,
    {
        LocalizedMessage {
            plugin_id: self.plugin_id.clone(),
            msgid: self.msgid.clone(),
            arguments: copy_texts(&self.arguments),
        }
    }
}

impl Clone for LocalizedText {
    fn clone(&self) -> (copy: Self)
        ensures
            copy@ == self@,
    {
        match self {
            LocalizedText::Raw(text) => LocalizedText::Raw(text.clone()),
            LocalizedText::Message(message) => LocalizedText::Message(message.clone()),
        }
    }
}

impl Default for LocalizedText {
    fn default() -> (text: Self)
        ensures
            text@ == LocalizedView::none(),
    {
        LocalizedText::Raw(String::new())
    }
}

impl LocalizedText {
    pub fn raw(text: &str) -> (r: Self)
        ensures
            r@ == LocalizedView::Raw(text@),
    {
        LocalizedText::Raw(text.to_owned())
    }

    pub fn translated(plugin_id: &str, msgid: &str) -> (r: Self)
        ensures
            r@ == LocalizedView::Message(
                (MessageView { plugin_id: plugin_id@, msgid: msgid@, arguments: Seq::empty() }),
            ),
    {
        let arguments: Vec<String> = Vec::new();
        assert(views(arguments@) =~= Seq::<Seq<char>>::empty());
        LocalizedText::translated_with_arguments(plugin_id, msgid, arguments)
    }

    pub fn translated_with_arguments(plugin_id: &str, msgid: &str, arguments: Vec<String>) -> (r:
        Self)
        ensures
            r@ == LocalizedView::Message(
                (MessageView {
                    plugin_id: plugin_id@,
                    msgid: msgid@,
                    arguments: views(arguments@),
                }),
            ),
    {
        LocalizedText::Message(
            LocalizedMessage { plugin_id: plugin_id.to_owned(), msgid: msgid.to_owned(), arguments },
        )
    }

    pub fn text(&self) -> (r: &str)
        ensures
            r@ == self@.text(),
    {
        match self {
            LocalizedText::Raw(text) => text.as_str(),
            LocalizedText::Message(message) => message.msgid.as_str(),
        }
    }

    pub fn message(&self) -> (r: Option<&LocalizedMessage>)
        ensures
            match self {
                LocalizedText::Raw(_) => r is None,
                LocalizedText::Message(message) => r == Some(message),
            },
    {
        match self {
            LocalizedText::Raw(_) => None,
            LocalizedText::Message(message) => Some(message),
        }
    }
}

/// The text of a raw text is itself, that of a message its id.
pub proof fn law_texts(text: Seq<char>, message: MessageView)
    ensures
        LocalizedView::Raw(text).text() == text,
        LocalizedView::Message(message).text() == message.msgid,
        LocalizedView::none() == LocalizedView::Raw(Seq::empty()),
{
}

/// What is said of a `LocalizedMessage` is said of its own fields.
pub proof fn law_localized_message_in_contracts(message: LocalizedMessage)
    ensures
        message@.plugin_id == message.plugin_id@,
        message@.msgid == message.msgid@,
        message@.arguments == views(message.arguments@),
{
}

} // verus!
