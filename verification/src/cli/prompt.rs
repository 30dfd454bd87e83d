//! The blocks of a prompt.
use vstd::prelude::*;

verus! {

/// One block of a prompt.
#[derive(Debug)]
#[allow(inconsistent_fields)]
pub enum PromptInputBlock {
    Text { text: String },
    Image { data: String, mime_type: String, uri: Option<String> },
    Resource {
        uri: String,
        mime_type: Option<String>,
        text: Option<String>,
        blob: Option<String>,
    },
    ResourceLink {
        uri: String,
        name: String,
        mime_type: Option<String>,
        description: Option<String>,
    },
}

/// The content of a block.
#[allow(inconsistent_fields)]
#[verifier::ext_equal]
pub enum BlockView {
    Text { text: Seq<char> },
    Image { data: Seq<char>, mime_type: Seq<char>, uri: Option<Seq<char>> },
    Resource {
        uri: Seq<char>,
        mime_type: Option<Seq<char>>,
        text: Option<Seq<char>>,
        blob: Option<Seq<char>>,
    },
    ResourceLink {
        uri: Seq<char>,
        name: Seq<char>,
        mime_type: Option<Seq<char>>,
        description: Option<Seq<char>>,
    },
}

impl View for PromptInputBlock {
    type V = BlockView;

    open spec fn view(&self) -> BlockView {
        match *self {
            PromptInputBlock::Text { text } => BlockView::Text { text: text@ },
            PromptInputBlock::Image { data, mime_type, uri } => BlockView::Image {
                data: data@,
                mime_type: mime_type@,
                uri: uri.deep_view(),
            },
            PromptInputBlock::Resource { uri, mime_type, text, blob } => BlockView::Resource {
                uri: uri@,
                mime_type: mime_type.deep_view(),
                text: text.deep_view(),
                blob: blob.deep_view(),
            },
            PromptInputBlock::ResourceLink { uri, name, mime_type, description } =>
                BlockView::ResourceLink {
                uri: uri@,
                name: name@,
                mime_type: mime_type.deep_view(),
                description: description.deep_view(),
            },
        }
    }
}

impl DeepView for PromptInputBlock {
    type V = BlockView;

    open spec fn deep_view(&self) -> BlockView {
        self@
    }
}

/// What the companion server is started with.
#[derive(Debug)]
pub struct CompanionLaunchSpec {
    pub command: String,
    pub args: Vec<String>,
    pub token: String,
    pub feedback_available: bool,
    pub delegation_enabled: bool,
}

} // verus!
