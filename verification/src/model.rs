//! The records that the scanner produces and the emitter consumes.

use vstd::prelude::*;

verus! {

/// One discovered message declaration, as a pair of character sequences.
pub struct MessageMetadataView {
    pub name: Seq<char>,
    pub id: Seq<char>,
}

/// One discovered message declaration: the name that follows the `message`
/// keyword, and the identifier literal of the annotation that precedes it.
#[derive(Debug, PartialEq, Eq)]
pub struct MessageMetadata {
    name: String,
    id: String,
}

impl View for MessageMetadata {
    type V = MessageMetadataView;

    closed spec fn view(&self) -> MessageMetadataView {
        MessageMetadataView { name: self.name@, id: self.id@ }
    }
}

impl DeepView for MessageMetadata {
    type V = MessageMetadataView;

    open spec fn deep_view(&self) -> MessageMetadataView {
        self@
    }
}

impl MessageMetadata {
    /// A record for the message `name` with the identifier literal `id`.
    pub fn new(name: String, id: String) -> (m: MessageMetadata)
        ensures
            m@.name == name@,
            m@.id == id@,
    {
        MessageMetadata { name, id }
    }

    /// The name of the message.
    pub fn name(&self) -> (name: &str)
        ensures
            name@ == self@.name,
    {
        self.name.as_str()
    }

    /// The identifier literal, as it stood in the annotation.
    pub fn id(&self) -> (id: &str)
        ensures
            id@ == self@.id,
    {
        self.id.as_str()
    }
}

/// One scanned file, as character sequences.
pub struct ProtoMessageInfoView {
    pub file_path: Seq<char>,
    pub file_name: Seq<char>,
    pub messages: Seq<MessageMetadataView>,
}

/// One scanned file: its path, its stem, which names the module generated
/// for it, and its records in the order of their declarations.
#[derive(Debug, PartialEq, Eq)]
pub struct ProtoMessageInfo {
    file_path: String,
    file_name: String,
    messages: Vec<MessageMetadata>,
}

impl View for ProtoMessageInfo {
    type V = ProtoMessageInfoView;

    closed spec fn view(&self) -> ProtoMessageInfoView {
        ProtoMessageInfoView {
            file_path: self.file_path@,
            file_name: self.file_name@,
            messages: self.messages.deep_view(),
        }
    }
}

impl DeepView for ProtoMessageInfo {
    type V = ProtoMessageInfoView;

    open spec fn deep_view(&self) -> ProtoMessageInfoView {
        self@
    }
}

impl ProtoMessageInfo {
    /// The record of the file at `file_path` with the stem `file_name`.
    pub fn new(file_path: String, file_name: String, messages: Vec<MessageMetadata>) -> (info:
        ProtoMessageInfo)
        ensures
            info@.file_path == file_path@,
            info@.file_name == file_name@,
            info@.messages == messages.deep_view(),
    {
        ProtoMessageInfo { file_path, file_name, messages }
    }

    /// The path of the file.
    pub fn file_path(&self) -> (path: &str)
        ensures
            path@ == self@.file_path,
    {
        self.file_path.as_str()
    }

    /// The stem of the file.
    pub fn file_name(&self) -> (name: &str)
        ensures
            name@ == self@.file_name,
    {
        self.file_name.as_str()
    }

    /// The records of the file, in the order of their declarations.
    pub fn messages(&self) -> (messages: &Vec<MessageMetadata>)
        ensures
            messages.deep_view() == self@.messages,
    {
        &self.messages
    }
}

} // verus!
