//! Laws on what Pi is told of a user's prompts and choices.

use agent_client_protocol_schema::v1::EmbeddedResource;
use vstd::prelude::*;

use crate::commands::{
    answer_text, level_command, option_command, prompt_command, slash_of, slash_parts,
};
use crate::json::{
    json_display, json_pretty, member_is_counted_once, member_reads_back, JsonView,
};
use crate::prompt::{
    embedded, gathered_blocks, prompt_of, resource_json, Block, BlockView, Gathered,
};
use crate::text::{
    is_bare, is_blank, is_white_space, joined_lists_join, text_splits_at_first,
    text_without_it_is_not_split, trimmed, white_space_around_is_trimmed,
};
use crate::words::{lemma_command_keys, lemma_slash_names};

verus! {

/// A slash with a name and arguments behind it is a slash command, whatever white space stands
/// around it.
proof fn lemma_slash_with_arguments(
    front: Seq<char>,
    name: Seq<char>,
    args: Seq<char>,
    back: Seq<char>,
)
    requires
        is_blank(front),
        is_blank(back),
        !name.contains(' '),
        args.len() > 0,
        !is_white_space(args.last()),
    ensures
        slash_parts(front + (seq!['/'] + name + seq![' '] + args) + back) == Some((name, args)),
{
    let text = seq!['/'] + name + seq![' '] + args;
    assert(text.first() == '/' && text.last() == args.last());
    white_space_around_is_trimmed(front, text, back);
    assert(text.drop_first() =~= name + seq![' '] + args);
    text_splits_at_first(name, ' ', args);
}

/// A slash with a name behind it is a slash command without arguments.
proof fn lemma_slash_alone(front: Seq<char>, name: Seq<char>, back: Seq<char>)
    requires
        is_blank(front),
        is_blank(back),
        !name.contains(' '),
        name.len() > 0,
        !is_white_space(name.last()),
    ensures
        slash_parts(front + (seq!['/'] + name) + back) == Some((name, Seq::<char>::empty())),
{
    let text = seq!['/'] + name;
    assert(text.first() == '/' && text.last() == name.last());
    white_space_around_is_trimmed(front, text, back);
    assert(text.drop_first() =~= name);
    text_without_it_is_not_split(name, ' ');
}

/// Whatever mode is named after `/steering`, Pi is told to steer in that mode; `one-at-a-time`
/// is the mode only where none is named.
pub proof fn steering_mode_is_told(front: Seq<char>, mode: Seq<char>, back: Seq<char>)
    requires
        is_blank(front),
        is_blank(back),
        mode.len() > 0,
        !is_white_space(mode.last()),
    ensures
        slash_of(front + ("/steering "@ + mode) + back) matches Some(slash) && {
            &&& slash.command.size() == 2
            &&& slash.command.str_at("type"@) == Some("set_steering_mode"@)
            &&& slash.command.str_at("mode"@) == Some(mode)
            &&& slash.output == Some("Steering mode updated."@)
        },
        slash_of(front + "/steering"@ + back) matches Some(slash) && {
            &&& slash.command.size() == 2
            &&& slash.command.str_at("type"@) == Some("set_steering_mode"@)
            &&& slash.command.str_at("mode"@) == Some("one-at-a-time"@)
            &&& slash.output == Some("Steering mode updated."@)
        },
{
    broadcast use {member_is_counted_once, member_reads_back};

    lemma_slash_names();
    lemma_command_keys();
    reveal_strlit("steering");
    reveal_strlit("/steering");
    reveal_strlit("/steering ");
    assert("/steering "@ + mode =~= seq!['/'] + "steering"@ + seq![' '] + mode);
    assert("/steering"@ =~= seq!['/'] + "steering"@);
    lemma_slash_with_arguments(front, "steering"@, mode, back);
    lemma_slash_alone(front, "steering"@, back);
}

/// Whatever mode is named after `/follow-up`, Pi is told to follow up in that mode;
/// `one-at-a-time` is the mode only where none is named.
pub proof fn follow_up_mode_is_told(front: Seq<char>, mode: Seq<char>, back: Seq<char>)
    requires
        is_blank(front),
        is_blank(back),
        mode.len() > 0,
        !is_white_space(mode.last()),
    ensures
        slash_of(front + ("/follow-up "@ + mode) + back) matches Some(slash) && {
            &&& slash.command.size() == 2
            &&& slash.command.str_at("type"@) == Some("set_follow_up_mode"@)
            &&& slash.command.str_at("mode"@) == Some(mode)
            &&& slash.output == Some("Follow-up mode updated."@)
        },
        slash_of(front + "/follow-up"@ + back) matches Some(slash) && {
            &&& slash.command.size() == 2
            &&& slash.command.str_at("type"@) == Some("set_follow_up_mode"@)
            &&& slash.command.str_at("mode"@) == Some("one-at-a-time"@)
            &&& slash.output == Some("Follow-up mode updated."@)
        },
{
    broadcast use {member_is_counted_once, member_reads_back};

    lemma_slash_names();
    lemma_command_keys();
    reveal_strlit("follow-up");
    reveal_strlit("/follow-up");
    reveal_strlit("/follow-up ");
    assert("/follow-up "@ + mode =~= seq!['/'] + "follow-up"@ + seq![' '] + mode);
    assert("/follow-up"@ =~= seq!['/'] + "follow-up"@);
    lemma_slash_with_arguments(front, "follow-up"@, mode, back);
    lemma_slash_alone(front, "follow-up"@, back);
}

/// What is written after `/name` is the name that the session gets, as it stands.
pub proof fn session_name_is_told(front: Seq<char>, name: Seq<char>, back: Seq<char>)
    requires
        is_blank(front),
        is_blank(back),
        name.len() > 0,
        !is_white_space(name.last()),
    ensures
        slash_of(front + ("/name "@ + name) + back) matches Some(slash) && {
            &&& slash.command.size() == 2
            &&& slash.command.str_at("type"@) == Some("set_session_name"@)
            &&& slash.command.str_at("name"@) == Some(name)
            &&& slash.output == Some("Session name updated."@)
        },
        slash_of(front + "/name"@ + back) matches Some(slash) && {
            &&& slash.command.size() == 2
            &&& slash.command.str_at("type"@) == Some("set_session_name"@)
            &&& slash.command.str_at("name"@) == Some(Seq::<char>::empty())
            &&& slash.output == Some("Session name updated."@)
        },
{
    broadcast use {member_is_counted_once, member_reads_back};

    lemma_slash_names();
    lemma_command_keys();
    reveal_strlit("name");
    reveal_strlit("/name");
    reveal_strlit("/name ");
    assert("/name "@ + name =~= seq!['/'] + "name"@ + seq![' '] + name);
    assert("/name"@ =~= seq!['/'] + "name"@);
    lemma_slash_with_arguments(front, "name"@, name, back);
    lemma_slash_alone(front, "name"@, back);
}

/// What is written after `/compact` tells Pi how to compact, without the white space around it;
/// `null` stands for no instructions. The user reads Pi's own answer.
pub proof fn compact_instructions_are_told(
    front: Seq<char>,
    gap: Seq<char>,
    wish: Seq<char>,
    back: Seq<char>,
)
    requires
        is_blank(front),
        is_blank(gap),
        is_blank(back),
        is_bare(wish),
    ensures
        slash_of(front + ("/compact "@ + gap + wish) + back) matches Some(slash) && {
            &&& slash.command.size() == 2
            &&& slash.command.str_at("type"@) == Some("compact"@)
            &&& slash.command.str_at("customInstructions"@) == Some(wish)
            &&& slash.output is None
        },
        slash_of(front + "/compact"@ + back) matches Some(slash) && {
            &&& slash.command.size() == 2
            &&& slash.command.str_at("type"@) == Some("compact"@)
            &&& slash.command.get("customInstructions"@) == Some(JsonView::Null)
            &&& slash.output is None
        },
{
    broadcast use {member_is_counted_once, member_reads_back};

    lemma_slash_names();
    lemma_command_keys();
    reveal_strlit("compact");
    reveal_strlit("/compact");
    reveal_strlit("/compact ");
    assert("/compact "@ + gap + wish =~= seq!['/'] + "compact"@ + seq![' '] + (gap + wish));
    assert("/compact"@ =~= seq!['/'] + "compact"@);
    lemma_slash_with_arguments(front, "compact"@, gap + wish, back);
    lemma_slash_alone(front, "compact"@, back);
    white_space_around_is_trimmed(gap, wish, Seq::empty());
    assert(gap + wish + Seq::empty() =~= gap + wish);
}

/// What is written after `/export` tells Pi where to export to, without the white space around
/// it; `null` stands for no place. The user reads Pi's own answer.
pub proof fn export_path_is_told(
    front: Seq<char>,
    gap: Seq<char>,
    path: Seq<char>,
    back: Seq<char>,
)
    requires
        is_blank(front),
        is_blank(gap),
        is_blank(back),
        is_bare(path),
    ensures
        slash_of(front + ("/export "@ + gap + path) + back) matches Some(slash) && {
            &&& slash.command.size() == 2
            &&& slash.command.str_at("type"@) == Some("export_html"@)
            &&& slash.command.str_at("outputPath"@) == Some(path)
            &&& slash.output is None
        },
        slash_of(front + "/export"@ + back) matches Some(slash) && {
            &&& slash.command.size() == 2
            &&& slash.command.str_at("type"@) == Some("export_html"@)
            &&& slash.command.get("outputPath"@) == Some(JsonView::Null)
            &&& slash.output is None
        },
{
    broadcast use {member_is_counted_once, member_reads_back};

    lemma_slash_names();
    lemma_command_keys();
    reveal_strlit("export");
    reveal_strlit("/export");
    reveal_strlit("/export ");
    assert("/export "@ + gap + path =~= seq!['/'] + "export"@ + seq![' '] + (gap + path));
    assert("/export"@ =~= seq!['/'] + "export"@);
    lemma_slash_with_arguments(front, "export"@, gap + path, back);
    lemma_slash_alone(front, "export"@, back);
    white_space_around_is_trimmed(gap, path, Seq::empty());
    assert(gap + path + Seq::empty() =~= gap + path);
}

/// `/session` asks Pi for the figures of the session, whatever is written after it. The user
/// reads Pi's own answer.
pub proof fn session_figures_are_asked_for(front: Seq<char>, args: Seq<char>, back: Seq<char>)
    requires
        is_blank(front),
        is_blank(back),
        args.len() > 0,
        !is_white_space(args.last()),
    ensures
        slash_of(front + ("/session "@ + args) + back) == slash_of(front + "/session"@ + back),
        slash_of(front + "/session"@ + back) matches Some(slash) && {
            &&& slash.command.size() == 1
            &&& slash.command.str_at("type"@) == Some("get_session_stats"@)
            &&& slash.output is None
        },
{
    broadcast use {member_is_counted_once, member_reads_back};

    lemma_slash_names();
    lemma_command_keys();
    reveal_strlit("session");
    reveal_strlit("/session");
    reveal_strlit("/session ");
    assert("/session "@ + args =~= seq!['/'] + "session"@ + seq![' '] + args);
    assert("/session"@ =~= seq!['/'] + "session"@);
    lemma_slash_with_arguments(front, "session"@, args, back);
    lemma_slash_alone(front, "session"@, back);
}

/// Whether a name is that of one of the adapter's own commands.
pub open spec fn is_own_command(name: Seq<char>) -> bool {
    ||| name == "compact"@
    ||| name == "session"@
    ||| name == "name"@
    ||| name == "steering"@
    ||| name == "follow-up"@
    ||| name == "export"@
}

/// Other commands are Pi's to read, with and without arguments.
pub proof fn other_commands_are_left_to_pi(
    front: Seq<char>,
    name: Seq<char>,
    args: Seq<char>,
    back: Seq<char>,
)
    requires
        is_blank(front),
        is_blank(back),
        !name.contains(' '),
        name.len() > 0,
        !is_white_space(name.last()),
        args.len() > 0,
        !is_white_space(args.last()),
        !is_own_command(name),
    ensures
        slash_of(front + (seq!['/'] + name + seq![' '] + args) + back) is None,
        slash_of(front + (seq!['/'] + name) + back) is None,
{
    lemma_slash_with_arguments(front, name, args, back);
    lemma_slash_alone(front, name, back);
}

/// What does not start with a slash is no command.
pub proof fn plain_prompts_are_left_to_pi(prompt: Seq<char>)
    requires
        trimmed(prompt).len() == 0 || trimmed(prompt)[0] != '/',
    ensures
        slash_of(prompt) is None,
{
}

/// The user reads where a session was exported to, or else the summary that Pi gives, or else the
/// answer itself.
pub proof fn answers_are_read_out(value: JsonView)
    ensures
        value.str_at("path"@) matches Some(path) ==> answer_text(value) == "Exported session to "@
            + path,
        value.str_at("path"@) is None && value.str_at("summary"@) is Some ==> Some(
            answer_text(value),
        ) == value.str_at("summary"@),
        value.str_at("path"@) is None && value.str_at("summary"@) is None ==> Some(
            answer_text(value),
        ) == (if json_pretty(value) is Some {
            json_pretty(value)
        } else {
            Some(json_display(value))
        }),
{
}

/// The model that is chosen is told to Pi by its provider and its id: what stands before and
/// after the first slash of the value.
pub proof fn model_choice_is_told(provider: Seq<char>, id: Seq<char>)
    requires
        !provider.contains('/'),
    ensures
        option_command("model"@, provider + seq!['/'] + id) matches Some(command) && {
            &&& command.size() == 3
            &&& command.str_at("type"@) == Some("set_model"@)
            &&& command.str_at("provider"@) == Some(provider)
            &&& command.str_at("modelId"@) == Some(id)
        },
{
    broadcast use {member_is_counted_once, member_reads_back};

    lemma_command_keys();
    text_splits_at_first(provider, '/', id);
}

/// The thinking level that is chosen is told to Pi as it stands, as an option or as a mode.
pub proof fn level_choice_is_told(level: Seq<char>)
    ensures
        option_command("thought_level"@, level) == Some(level_command(level)),
        level_command(level).size() == 2,
        level_command(level).str_at("type"@) == Some("set_thinking_level"@),
        level_command(level).str_at("level"@) == Some(level),
{
    broadcast use {member_is_counted_once, member_reads_back};

    lemma_command_keys();
    reveal_strlit("model");
    reveal_strlit("thought_level");
    assert("model"@.len() != "thought_level"@.len());
}

/// A model without a provider is not told to Pi, and nothing is known of other options.
pub proof fn other_choices_are_refused(option: Seq<char>, value: Seq<char>)
    requires
        option != "thought_level"@,
        option != "model"@ || !value.contains('/'),
    ensures
        option_command(option, value) is None,
{
    if option == "model"@ {
        text_without_it_is_not_split(value, '/');
    }
}

/// A prompt is told to Pi with its message and its images.
pub proof fn prompt_is_told(message: Seq<char>, images: Seq<JsonView>)
    ensures
        ({
            let command = prompt_command(message, images);
            &&& command.size() == 3
            &&& command.str_at("type"@) == Some("prompt"@)
            &&& command.str_at("message"@) == Some(message)
            &&& command.get("images"@) == Some(JsonView::Array(images))
        }),
{
    broadcast use {member_is_counted_once, member_reads_back};

    lemma_command_keys();
}

/// Whether a block of a prompt is an image.
pub open spec fn is_image(block: BlockView) -> bool {
    block is Image
}

/// Whether Pi cannot take a block of a prompt.
pub open spec fn is_refused(block: BlockView) -> bool {
    block is Audio || block is Other || block matches BlockView::Resource(Err(_))
}

/// Whether an image as it is told to Pi is the image of a block.
pub open spec fn carries(image: JsonView, block: BlockView) -> bool {
    block matches BlockView::Image { data, mime_type } && {
        &&& image.size() == 3
        &&& image.str_at("type"@) == Some("image"@)
        &&& image.str_at("data"@) == Some(data)
        &&& image.str_at("mimeType"@) == Some(mime_type)
    }
}

/// The images that are gathered are those of the image blocks, in their order.
proof fn lemma_images(blocks: Seq<BlockView>)
    ensures
        gathered_blocks(blocks) matches Ok(all) ==> {
            let pictures = blocks.filter(|block: BlockView| is_image(block));
            &&& all.images.len() == pictures.len()
            &&& forall|i: int|
                0 <= i < all.images.len() ==> carries(#[trigger] all.images[i], pictures[i])
        },
    decreases blocks.len(),
{
    broadcast use {member_is_counted_once, member_reads_back};

    reveal(Seq::filter);
    lemma_command_keys();
    if blocks.len() > 0 {
        lemma_images(blocks.drop_last());
        if let Ok(all) = gathered_blocks(blocks) {
            let before = gathered_blocks(blocks.drop_last())->Ok_0.images;
            let pictures = blocks.filter(|block: BlockView| is_image(block));
            if is_image(blocks.last()) {
                assert(carries(all.images.last(), blocks.last()));
            }
            assert forall|i: int| 0 <= i < all.images.len() implies carries(
                #[trigger] all.images[i],
                pictures[i],
            ) by {
                if i < before.len() {
                    assert(all.images[i] == before[i]);
                }
            }
        }
    }
}

/// Pi gets as many images as the prompt has image blocks, and each with the data and the type of
/// the block in its place.
pub proof fn images_are_told_in_order(blocks: Seq<BlockView>)
    ensures
        prompt_of(blocks) matches Ok((message, images)) ==> {
            let pictures = blocks.filter(|block: BlockView| is_image(block));
            &&& images.len() == pictures.len()
            &&& forall|i: int| 0 <= i < images.len() ==> carries(#[trigger] images[i], pictures[i])
        },
{
    lemma_images(blocks);
}

/// What two lists of blocks give is put together of what each gives.
proof fn lemma_gathered_parts(first: Seq<BlockView>, second: Seq<BlockView>)
    ensures
        gathered_blocks(first) is Err ==> gathered_blocks(first + second) == gathered_blocks(first),
        gathered_blocks(first) is Ok && gathered_blocks(second) is Err ==> gathered_blocks(
            first + second,
        ) == gathered_blocks(second),
        gathered_blocks(first) is Ok && gathered_blocks(second) is Ok ==> gathered_blocks(
            first + second,
        ) == Ok::<Gathered, Seq<char>>(
            Gathered {
                texts: gathered_blocks(first)->Ok_0.texts + gathered_blocks(second)->Ok_0.texts,
                images: gathered_blocks(first)->Ok_0.images + gathered_blocks(second)->Ok_0.images,
            },
        ),
    decreases second.len(),
{
    let all = first + second;
    if second.len() == 0 {
        assert(all =~= first);
        if let Ok(one) = gathered_blocks(first) {
            assert(one.texts + Seq::empty() =~= one.texts);
            assert(one.images + Seq::empty() =~= one.images);
        }
    } else {
        assert(all.drop_last() =~= first + second.drop_last());
        assert(all.last() == second.last());
        lemma_gathered_parts(first, second.drop_last());
        if gathered_blocks(all) is Ok && gathered_blocks(second) is Ok {
            let one = gathered_blocks(first)->Ok_0;
            let rest = gathered_blocks(second.drop_last())->Ok_0;
            let two = gathered_blocks(second)->Ok_0;
            let whole = gathered_blocks(all)->Ok_0;
            assert(whole.texts =~= one.texts + two.texts);
            assert(whole.images =~= one.images + two.images);
        }
    }
}

/// Whether a prompt has anything but images.
pub open spec fn has_words(blocks: Seq<BlockView>) -> bool {
    exists|i: int| 0 <= i < blocks.len() && !is_image(#[trigger] blocks[i])
}

/// A prompt that has nothing but images has no texts, and others have some.
proof fn lemma_has_words(blocks: Seq<BlockView>)
    ensures
        gathered_blocks(blocks) matches Ok(all) ==> (all.texts.len() > 0 <==> has_words(blocks)),
    decreases blocks.len(),
{
    if blocks.len() > 0 {
        let front = blocks.drop_last();
        lemma_has_words(front);
        if has_words(front) {
            let i = choose|i: int| 0 <= i < front.len() && !is_image(#[trigger] front[i]);
            assert(!is_image(blocks[i]));
        }
        if !is_image(blocks.last()) {
            assert(!is_image(blocks[blocks.len() - 1]));
        }
        if has_words(blocks) && is_image(blocks.last()) {
            let i = choose|i: int| 0 <= i < blocks.len() && !is_image(#[trigger] blocks[i]);
            assert(!is_image(front[i]));
        }
    }
}

/// A prompt in two parts is told as its parts are: the message of the first, an empty line and
/// the message of the second, or only one of them where the other has nothing but images, and the
/// images of the first before those of the second. Where Pi cannot take a part, the first such
/// part says why.
pub proof fn prompts_are_told_part_by_part(first: Seq<BlockView>, second: Seq<BlockView>)
    ensures
        prompt_of(first) is Err ==> prompt_of(first + second) == prompt_of(first),
        prompt_of(first) is Ok && prompt_of(second) is Err ==> prompt_of(first + second)
            == prompt_of(second),
        prompt_of(first) is Ok && prompt_of(second) is Ok ==> {
            let (one, pictures) = prompt_of(first)->Ok_0;
            let (two, more) = prompt_of(second)->Ok_0;
            prompt_of(first + second) == Ok::<(Seq<char>, Seq<JsonView>), Seq<char>>(
                (
                    if has_words(first) && has_words(second) {
                        one + "\n\n"@ + two
                    } else if has_words(first) {
                        one
                    } else {
                        two
                    },
                    pictures + more,
                ),
            )
        },
{
    lemma_gathered_parts(first, second);
    lemma_has_words(first);
    lemma_has_words(second);
    if gathered_blocks(first) is Ok && gathered_blocks(second) is Ok {
        let one = gathered_blocks(first)->Ok_0.texts;
        let two = gathered_blocks(second)->Ok_0.texts;
        if one.len() > 0 && two.len() > 0 {
            joined_lists_join(one, two, "\n\n"@);
        } else if one.len() > 0 {
            assert(one + two =~= one);
        } else {
            assert(one + two =~= two);
        }
    }
}

/// A prompt of one block is told as that block is: a text as it stands, a link by its name and
/// its place, a resource as context, and an image without a message.
pub proof fn single_blocks_are_told(block: BlockView)
    requires
        !is_refused(block),
    ensures
        prompt_of(seq![block]) matches Ok((message, images)) && {
            &&& block matches BlockView::Text(text) ==> message == text
            &&& block matches BlockView::ResourceLink { name, uri } ==> message == "[Resource: "@
                + name + "]("@ + uri + ")"@
            &&& block matches BlockView::Resource(Ok(resource)) ==> message == "<context>\n"@
                + embedded(resource) + "\n</context>"@
            &&& is_image(block) ==> message.len() == 0
            &&& !is_image(block) ==> images.len() == 0
        },
        prompt_of(Seq::empty()) matches Ok((message, images)) && message.len() == 0 && images.len()
            == 0,
{
    assert(seq![block].drop_last() =~= Seq::empty());
    reveal_with_fuel(gathered_blocks, 2);
}

/// A prompt is refused only where Pi cannot take one of its blocks, and the first such block says
/// why: audio is not supported, nor is what is not known, and a resource without a JSON form
/// gives its own error.
pub proof fn refused_prompts_say_why(blocks: Seq<BlockView>)
    ensures
        prompt_of(blocks) is Ok <==> forall|i: int|
            0 <= i < blocks.len() ==> !is_refused(#[trigger] blocks[i]),
        forall|i: int|
            0 <= i < blocks.len() && is_refused(#[trigger] blocks[i]) && (forall|k: int|
                0 <= k < i ==> !is_refused(#[trigger] blocks[k])) ==> prompt_of(blocks) == Err::<
                (Seq<char>, Seq<JsonView>),
                Seq<char>,
            >(
                match blocks[i] {
                    BlockView::Audio => "Pi does not support audio prompt content"@,
                    BlockView::Resource(Err(text)) => text,
                    _ => "unsupported ACP prompt content"@,
                },
            ),
    decreases blocks.len(),
{
    if blocks.len() > 0 {
        let front = blocks.drop_last();
        refused_prompts_say_why(front);
        assert forall|i: int| 0 <= i < front.len() implies #[trigger] front[i] == blocks[i] by {}
        if prompt_of(front) is Ok {
            assert forall|i: int| 0 <= i < front.len() implies !is_refused(
                #[trigger] blocks[i],
            ) by {
                assert(!is_refused(front[i]));
            }
        } else {
            let i = choose|i: int| 0 <= i < front.len() && is_refused(#[trigger] front[i]);
            assert(is_refused(blocks[i]));
        }
        assert forall|i: int|
            0 <= i < front.len() && is_refused(#[trigger] blocks[i]) && (forall|k: int|
                0 <= k < i ==> !is_refused(#[trigger] blocks[k])) implies is_refused(front[i]) && (
        forall|k: int| 0 <= k < i ==> !is_refused(#[trigger] front[k])) by {}
        assert(blocks.last() == blocks[blocks.len() - 1]);
    }
}

/// The text of a resource is its own `text` inside `resource`, or else its outer `text`, or else
/// its `uri` inside `resource`, or else empty.
pub proof fn resources_are_told_by_text_or_place(resource: JsonView)
    ensures
        ({
            let inner = resource.str_in("resource"@, "text"@);
            let outer = resource.str_at("text"@);
            let uri = resource.str_in("resource"@, "uri"@);
            &&& inner is Some ==> Some(embedded(resource)) == inner
            &&& inner is None && outer is Some ==> Some(embedded(resource)) == outer
            &&& inner is None && outer is None && uri is Some ==> Some(embedded(resource)) == uri
            &&& inner is None && outer is None && uri is None ==> embedded(resource).len() == 0
        }),
{
}

/// The blocks of a prompt are seen as they are.
pub proof fn blocks_are_seen_as_they_are(
    text: String,
    data: String,
    mime_type: String,
    name: String,
    uri: String,
    resource: EmbeddedResource,
)
    ensures
        Block::Text(text)@ == BlockView::Text(text@),
        (Block::Image { data, mime_type })@ == (BlockView::Image {
            data: data@,
            mime_type: mime_type@,
        }),
        (Block::ResourceLink { name, uri })@ == (BlockView::ResourceLink {
            name: name@,
            uri: uri@,
        }),
        Block::Resource(resource)@ == BlockView::Resource(resource_json(resource)),
        Block::Audio@ is Audio,
        Block::Other@ is Other,
{
}

} // verus!
