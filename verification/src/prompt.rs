//! What the user asks, as Pi wants to hear it.

use agent_client_protocol_schema::v1::{ContentBlock, EmbeddedResource};
use serde_json::Value;
use vstd::prelude::*;

use crate::json::{error_message, items_view, message_of, value_view, Json, JsonView};
use crate::text::{join, joined, texts};

verus! {

/// A part of a prompt as the client sends it.
#[verifier::external_type_specification]
#[verifier::external_body]
pub struct ExContentBlock(ContentBlock);

/// A resource inside a prompt.
#[verifier::external_type_specification]
#[verifier::external_body]
pub struct ExEmbeddedResource(EmbeddedResource);

/// A part of a prompt.
pub enum Block {
    Text(String),
    Image { data: String, mime_type: String },
    ResourceLink { name: String, uri: String },
    Resource(EmbeddedResource),
    Audio,
    Other,
}

/// What a [`Block`] is. A resource is its JSON form, or the message of the error for which it has
/// none.
pub enum BlockView {
    Text(Seq<char>),
    Image { data: Seq<char>, mime_type: Seq<char> },
    ResourceLink { name: Seq<char>, uri: Seq<char> },
    Resource(Result<JsonView, Seq<char>>),
    Audio,
    Other,
}

impl View for Block {
    type V = BlockView;

    open spec fn view(&self) -> BlockView {
        match self {
            Block::Text(text) => BlockView::Text(text@),
            Block::Image { data, mime_type } => BlockView::Image {
                data: data@,
                mime_type: mime_type@,
            },
            Block::ResourceLink { name, uri } => BlockView::ResourceLink { name: name@, uri: uri@ },
            Block::Resource(resource) => BlockView::Resource(resource_json(*resource)),
            Block::Audio => BlockView::Audio,
            Block::Other => BlockView::Other,
        }
    }
}

/// The views of a list of blocks.
pub open spec fn block_views(blocks: Seq<Block>) -> Seq<BlockView> {
    blocks.map_values(|b: Block| b@)
}

/// The block that a part of a prompt is.
pub uninterp spec fn schema_block(block: ContentBlock) -> BlockView;

/// The JSON form of a resource, or the message of the error for which it has none.
pub uninterp spec fn resource_json(resource: EmbeddedResource) -> Result<JsonView, Seq<char>>;

/// Takes a [`ContentBlock`] apart. The name says what it is: the variant and its fields.
#[verifier::external_body]
pub(crate) fn block_of(block: ContentBlock) -> (r: Block)
    ensures
        r@ == schema_block(block),
{
    match block {
        ContentBlock::Text(text) => Block::Text(text.text),
        ContentBlock::Image(image) => Block::Image { data: image.data, mime_type: image.mime_type },
        ContentBlock::ResourceLink(link) => Block::ResourceLink { name: link.name, uri: link.uri },
        ContentBlock::Resource(resource) => Block::Resource(resource),
        ContentBlock::Audio(_) => Block::Audio,
        _ => Block::Other,
    }
}

/// Calls `serde_json::to_value` on an [`EmbeddedResource`]. The name says what it gives: the JSON
/// form, or the message of the error.
#[verifier::external_body]
fn resource_value(resource: &EmbeddedResource) -> (r: Result<Value, serde_json::Error>)
    ensures
        resource_json(*resource) == (match r {
            Ok(value) => Ok::<JsonView, Seq<char>>(value_view(value)),
            Err(error) => Err(error_message(error)),
        }),
{
    serde_json::to_value(resource)
}

/// The text of a resource: its own text, or else where it is found.
pub open spec fn embedded(resource: JsonView) -> Seq<char> {
    match resource.str_in("resource"@, "text"@) {
        Some(text) => text,
        None => match resource.str_at("text"@) {
            Some(text) => text,
            None => match resource.str_in("resource"@, "uri"@) {
                Some(uri) => uri,
                None => Seq::empty(),
            },
        },
    }
}

/// The text of a resource.
pub fn embedded_text(resource: &Json) -> (r: String)
    ensures
        r@ == embedded(resource@),
{
    proof {
        reveal_strlit("");
        assert(""@ =~= Seq::<char>::empty());
    }
    let text: &str = match resource.str_in("resource", "text") {
        Some(text) => text,
        None => match resource.str_at("text") {
            Some(text) => text,
            None => match resource.str_in("resource", "uri") {
                Some(uri) => uri,
                None => "",
            },
        },
    };
    text.to_owned()
}

/// An image as Pi wants it.
pub open spec fn image_json(data: Seq<char>, mime_type: Seq<char>) -> JsonView {
    JsonView::object().with("type"@, JsonView::String("image"@)).with(
        "data"@,
        JsonView::String(data),
    ).with("mimeType"@, JsonView::String(mime_type))
}

/// A prompt taken apart: its texts, and its images.
pub struct Gathered {
    pub texts: Seq<Seq<char>>,
    pub images: Seq<JsonView>,
}

/// The texts and the images of a prompt, in order, or why Pi cannot take it. The first block that
/// it cannot take decides.
pub open spec fn gathered_blocks(blocks: Seq<BlockView>) -> Result<Gathered, Seq<char>>
    decreases blocks.len(),
{
    if blocks.len() == 0 {
        Ok(Gathered { texts: Seq::empty(), images: Seq::empty() })
    } else {
        match gathered_blocks(blocks.drop_last()) {
            Err(text) => Err(text),
            Ok(before) => {
                let with_text = |text: Seq<char>|
                    Ok::<Gathered, Seq<char>>(
                        Gathered { texts: before.texts.push(text), images: before.images },
                    );
                match blocks.last() {
                    BlockView::Text(text) => with_text(text),
                    BlockView::Image { data, mime_type } => Ok(
                        Gathered {
                            texts: before.texts,
                            images: before.images.push(image_json(data, mime_type)),
                        },
                    ),
                    BlockView::ResourceLink { name, uri } => with_text(
                        "[Resource: "@ + name + "]("@ + uri + ")"@,
                    ),
                    BlockView::Resource(Ok(resource)) => with_text(
                        "<context>\n"@ + embedded(resource) + "\n</context>"@,
                    ),
                    BlockView::Resource(Err(text)) => Err(text),
                    BlockView::Audio => Err("Pi does not support audio prompt content"@),
                    BlockView::Other => Err("unsupported ACP prompt content"@),
                }
            },
        }
    }
}

/// Once a block cannot be taken, no more blocks change that.
proof fn lemma_gathered_error(blocks: Seq<BlockView>, n: int)
    requires
        0 <= n <= blocks.len(),
        gathered_blocks(blocks.take(n)) is Err,
    ensures
        gathered_blocks(blocks) == gathered_blocks(blocks.take(n)),
    decreases blocks.len(),
{
    if n == blocks.len() {
        assert(blocks.take(n) =~= blocks);
    } else {
        assert(blocks.drop_last().take(n) =~= blocks.take(n));
        lemma_gathered_error(blocks.drop_last(), n);
    }
}

/// What Pi is told: the message, which is the texts with empty lines between them, and the images.
pub open spec fn prompt_of(blocks: Seq<BlockView>) -> Result<(Seq<char>, Seq<JsonView>), Seq<char>> {
    match gathered_blocks(blocks) {
        Err(text) => Err(text),
        Ok(all) => Ok((joined(all.texts, "\n\n"@), all.images)),
    }
}

/// The view of a prompt or of an error.
pub open spec fn prompt_view(r: Result<(String, Vec<Json>), String>) -> Result<
    (Seq<char>, Seq<JsonView>),
    Seq<char>,
> {
    match r {
        Ok((message, images)) => Ok((message@, items_view(images@))),
        Err(text) => Err(text@),
    }
}

/// What Pi is told: the message and the images of a prompt.
pub fn prompt_to_pi(blocks: &Vec<Block>) -> (r: Result<(String, Vec<Json>), String>)
    ensures
        prompt_view(r) == prompt_of(block_views(blocks@)),
{
    let ghost all = block_views(blocks@);
    let mut text: Vec<String> = Vec::new();
    let mut images: Vec<Json> = Vec::new();
    let mut i: usize = 0;
    assert(texts(text@) =~= Seq::<Seq<char>>::empty());
    assert(items_view(images@) =~= Seq::<JsonView>::empty());
    while i < blocks.len()
        invariant
            i <= blocks.len(),
            all == block_views(blocks@),
            gathered_blocks(all.take(i as int)) == Ok::<Gathered, Seq<char>>(
                Gathered { texts: texts(text@), images: items_view(images@) },
            ),
        decreases blocks.len() - i,
    {
        proof {
            assert(all.take(i + 1).drop_last() =~= all.take(i as int));
            assert(all.take(i + 1).last() == blocks@[i as int]@);
        }
        let ghost before = text@;
        let ghost images_before = images@;
        match &blocks[i] {
            Block::Text(content) => {
                text.push(content.clone());
                assert(texts(text@) =~= texts(before).push(content@));
            },
            Block::Image { data, mime_type } => {
                images.push(
                    Json::object().with("type", Json::text("image")).with(
                        "data",
                        Json::text(data.as_str()),
                    ).with("mimeType", Json::text(mime_type.as_str())),
                );
                proof {
                    assert(images@.drop_last() =~= images_before);
                }
            },
            Block::ResourceLink { name, uri } => {
                text.push(
                    "[Resource: ".to_owned().concat(name.as_str()).concat("](").concat(
                        uri.as_str(),
                    ).concat(")"),
                );
                assert(texts(text@) =~= texts(before).push(
                    "[Resource: "@ + name@ + "]("@ + uri@ + ")"@,
                ));
            },
            Block::Resource(resource) => match resource_value(resource) {
                Ok(value) => {
                    let value = Json::from_value(value);
                    text.push(
                        "<context>\n".to_owned().concat(embedded_text(&value).as_str()).concat(
                            "\n</context>",
                        ),
                    );
                    assert(texts(text@) =~= texts(before).push(
                        "<context>\n"@ + embedded(value@) + "\n</context>"@,
                    ));
                },
                Err(error) => {
                    proof {
                        lemma_gathered_error(all, i + 1);
                    }
                    return Err(message_of(&error));
                },
            },
            Block::Audio => {
                proof {
                    lemma_gathered_error(all, i + 1);
                }
                return Err("Pi does not support audio prompt content".to_owned());
            },
            Block::Other => {
                proof {
                    lemma_gathered_error(all, i + 1);
                }
                return Err("unsupported ACP prompt content".to_owned());
            },
        }
        i = i + 1;
    }
    assert(all.take(i as int) =~= all);
    Ok((join(&text, "\n\n"), images))
}

/// Takes the parts of a prompt apart.
pub fn blocks_of(parts: Vec<ContentBlock>) -> (r: Vec<Block>)
    ensures
        block_views(r@) == parts@.map_values(|part: ContentBlock| schema_block(part)),
{
    let ghost all = parts@;
    let mut blocks: Vec<Block> = Vec::new();
    for part in iter: parts
        invariant
            iter.seq() == all,
            block_views(blocks@) == all.take(iter.index()).map_values(
                |part: ContentBlock| schema_block(part),
            ),
    {
        let ghost before = blocks@;
        blocks.push(block_of(part));
        proof {
            assert(all.take(iter.index() + 1).map_values(|part: ContentBlock| schema_block(part))
                =~= all.take(iter.index()).map_values(
                |part: ContentBlock| schema_block(part),
            ).push(schema_block(part)));
            assert(block_views(blocks@) =~= block_views(before).push(schema_block(part)));
        }
    }
    assert(all.take(all.len() as int) =~= all);
    blocks
}

} // verus!
