//! Messages of the chat service between a node and its local clients.

use vstd::prelude::*;

verus! {

/// Chat service message container.
#[derive(Clone, Debug, PartialEq, Eq)]
pub struct Chat {
    pub message: Option<Message>,
}

/// The kinds of chat service messages.
#[derive(Clone, Debug, PartialEq, Eq)]
pub enum Message {
    /// request an overview over the last conversations
    OverviewRequest(ChatOverviewRequest),
    /// contains the overview list
    OverviewList(ChatOverviewList),
    /// request a specific conversation
    ConversationRequest(ChatConversationRequest),
    /// list of a chat conversation
    ConversationList(ChatConversationList),
    /// send a new chat message
    Send(ChatMessageSend),
}

/// Request for the overview of all conversations.
#[derive(Clone, Debug, PartialEq, Eq)]
pub struct ChatOverviewRequest {}

/// Overview of conversations: the whole list or the latest changes.
#[derive(Clone, Debug, PartialEq, Eq)]
pub struct ChatOverviewList {
    pub overview_list: Vec<ChatOverview>,
}

/// One conversation in the overview.
#[derive(Clone, Debug, PartialEq, Eq)]
pub struct ChatOverview {
    /// id of the user
    pub conversation_id: Vec<u8>,
    /// last message index
    pub last_message_index: u32,
    /// name of the conversation
    pub name: String,
    /// time when the last message was sent or received
    pub last_message_at: u64,
    /// unread messages
    pub unread: i32,
    /// preview text of the last message
    pub content: Vec<u8>,
    /// sender of the last message
    pub last_message_sender_id: Vec<u8>,
}

/// Request for the messages of one conversation.
#[derive(Clone, Debug, PartialEq, Eq)]
pub struct ChatConversationRequest {
    pub conversation_id: Vec<u8>,
    /// send only messages newer than this index
    pub last_index: u64,
}

/// The messages of one conversation.
#[derive(Clone, Debug, PartialEq, Eq)]
pub struct ChatConversationList {
    pub conversation_id: Vec<u8>,
    pub message_list: Vec<ChatMessage>,
}

/// A single chat message.
#[derive(Clone, Debug, PartialEq, Eq)]
pub struct ChatMessage {
    /// message index
    pub index: u32,
    /// id of the sending user
    pub sender_id: Vec<u8>,
    /// message id
    pub message_id: Vec<u8>,
    /// 0 = nothing, 1 = sent, 2 = received
    pub status: i32,
    /// time when the message was sent
    pub sent_at: u64,
    /// time when the message was received
    pub received_at: u64,
    /// content of the message
    pub content: Vec<u8>,
}

/// The content of a chat message.
#[derive(Clone, Debug, PartialEq, Eq)]
pub struct ChatMessageContent {
    pub content: Option<Content>,
}

/// The kinds of chat message content.
#[derive(Clone, Debug, PartialEq, Eq)]
pub enum Content {
    /// chat text
    ChatContent(ChatContent),
    /// a shared file
    FileContent(FileShareContent),
}

/// Chat text.
#[derive(Clone, Debug, PartialEq, Eq)]
pub struct ChatContent {
    pub content: String,
}

/// A shared file.
#[derive(Clone, Debug, PartialEq, Eq)]
pub struct FileShareContent {
    /// file history index in the data base
    pub history_index: u64,
    /// file identifier
    pub file_id: u64,
    pub file_name: String,
    pub file_size: u32,
    pub file_descr: String,
}

/// Sends a chat message.
#[derive(Clone, Debug, PartialEq, Eq)]
pub struct ChatMessageSend {
    /// conversation to which this message is sent
    pub conversation_id: Vec<u8>,
    /// content of the message
    pub content: String,
}

} // verus!
