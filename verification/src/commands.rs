//! Commands that Pi is given on the user's behalf.

use vstd::prelude::*;

use crate::json::{json_display, json_pretty, opt_string_view, Json, JsonView};
use crate::text::{
    opt_string, opt_text, same_text, split_first, split_once, strip_prefix, trimmed,
};

verus! {

/// The text without white space around it, where anything is left.
pub open spec fn kept(text: Seq<char>) -> Option<Seq<char>> {
    if trimmed(text).len() == 0 {
        None
    } else {
        Some(trimmed(text))
    }
}

/// The text without white space around it, where anything is left.
pub fn nonempty(value: &str) -> (r: Option<&str>)
    ensures
        opt_text(r) == kept(value@),
{
    let trimmed: &str = value.trim();
    if trimmed.is_empty() {
        None
    } else {
        Some(trimmed)
    }
}

/// A slash command: what Pi is told, and what the user reads when that is done. `None` stands for
/// what Pi answers.
pub struct Slash {
    pub command: Json,
    pub output: Option<String>,
}

/// What a [`Slash`] is.
pub struct SlashView {
    pub command: JsonView,
    pub output: Option<Seq<char>>,
}

impl View for Slash {
    type V = SlashView;

    open spec fn view(&self) -> SlashView {
        SlashView { command: self.command@, output: opt_string(self.output) }
    }
}

/// The view of an optional slash command.
pub open spec fn opt_slash(slash: Option<Slash>) -> Option<SlashView> {
    match slash {
        Some(slash) => Some(slash@),
        None => None,
    }
}

/// A command of a type.
pub open spec fn typed(name: Seq<char>) -> JsonView {
    JsonView::object().with("type"@, JsonView::String(name))
}

/// The name and the arguments of a slash command.
pub open spec fn slash_parts(prompt: Seq<char>) -> Option<(Seq<char>, Seq<char>)> {
    let text = trimmed(prompt);
    if text.len() > 0 && text.first() == '/' {
        match split_first(text.drop_first(), ' ') {
            Some((name, args)) => Some((name, args)),
            None => Some((text.drop_first(), Seq::empty())),
        }
    } else {
        None
    }
}

/// The mode that is asked for, which is `one-at-a-time` where none is named.
pub open spec fn queue_mode(args: Seq<char>) -> Seq<char> {
    if args.len() == 0 {
        "one-at-a-time"@
    } else {
        args
    }
}

/// The slash command of a name.
pub open spec fn named_slash(name: Seq<char>, args: Seq<char>) -> Option<SlashView> {
    if name == "compact"@ {
        Some(
            SlashView {
                command: typed("compact"@).with("customInstructions"@, opt_string_view(kept(args))),
                output: None,
            },
        )
    } else if name == "session"@ {
        Some(SlashView { command: typed("get_session_stats"@), output: None })
    } else if name == "name"@ {
        Some(
            SlashView {
                command: typed("set_session_name"@).with("name"@, JsonView::String(args)),
                output: Some("Session name updated."@),
            },
        )
    } else if name == "steering"@ {
        Some(
            SlashView {
                command: typed("set_steering_mode"@).with(
                    "mode"@,
                    JsonView::String(queue_mode(args)),
                ),
                output: Some("Steering mode updated."@),
            },
        )
    } else if name == "follow-up"@ {
        Some(
            SlashView {
                command: typed("set_follow_up_mode"@).with(
                    "mode"@,
                    JsonView::String(queue_mode(args)),
                ),
                output: Some("Follow-up mode updated."@),
            },
        )
    } else if name == "export"@ {
        Some(
            SlashView {
                command: typed("export_html"@).with("outputPath"@, opt_string_view(kept(args))),
                output: None,
            },
        )
    } else {
        None
    }
}

/// The slash command that a prompt is. What is no command of the adapter's own is for Pi to read.
pub open spec fn slash_of(prompt: Seq<char>) -> Option<SlashView> {
    match slash_parts(prompt) {
        Some((name, args)) => named_slash(name, args),
        None => None,
    }
}

/// A command of a type.
fn make_typed(name: &str) -> (r: Json)
    ensures
        r@ == typed(name@),
{
    Json::object().with("type", Json::text(name))
}

/// The mode that is asked for.
fn pick_mode(args: &str) -> (r: &str)
    ensures
        r@ == queue_mode(args@),
{
    if args.is_empty() {
        "one-at-a-time"
    } else {
        args
    }
}

/// The slash command that a prompt is.
pub fn slash_command(prompt: &str) -> (r: Option<Slash>)
    ensures
        opt_slash(r) == slash_of(prompt@),
{
    proof {
        reveal_strlit("");
        assert(""@ =~= Seq::<char>::empty());
    }
    let command: &str = match strip_prefix(prompt.trim(), '/') {
        Some(command) => command,
        None => return None,
    };
    let parts: (&str, &str) = match split_once(command, ' ') {
        Some((name, args)) => (name, args),
        None => (command, ""),
    };
    let name: &str = parts.0;
    let args: &str = parts.1;
    if same_text(name, "compact") {
        Some(
            Slash {
                command: make_typed("compact").with(
                    "customInstructions",
                    Json::opt_text(nonempty(args)),
                ),
                output: None,
            },
        )
    } else if same_text(name, "session") {
        Some(Slash { command: make_typed("get_session_stats"), output: None })
    } else if same_text(name, "name") {
        Some(
            Slash {
                command: make_typed("set_session_name").with("name", Json::text(args)),
                output: Some("Session name updated.".to_owned()),
            },
        )
    } else if same_text(name, "steering") {
        Some(
            Slash {
                command: make_typed("set_steering_mode").with("mode", Json::text(pick_mode(args))),
                output: Some("Steering mode updated.".to_owned()),
            },
        )
    } else if same_text(name, "follow-up") {
        Some(
            Slash {
                command: make_typed("set_follow_up_mode").with("mode", Json::text(pick_mode(args))),
                output: Some("Follow-up mode updated.".to_owned()),
            },
        )
    } else if same_text(name, "export") {
        Some(
            Slash {
                command: make_typed("export_html").with(
                    "outputPath",
                    Json::opt_text(nonempty(args)),
                ),
                output: None,
            },
        )
    } else {
        None
    }
}

/// What the user reads of an answer of Pi's.
pub open spec fn answer_text(value: JsonView) -> Seq<char> {
    match value.str_at("path"@) {
        Some(path) => "Exported session to "@ + path,
        None => match value.str_at("summary"@) {
            Some(summary) => summary,
            None => match json_pretty(value) {
                Some(text) => text,
                None => json_display(value),
            },
        },
    }
}

/// What the user reads of an answer of Pi's.
pub fn pretty_result(value: &Json) -> (r: String)
    ensures
        r@ == answer_text(value@),
{
    match value.str_at("path") {
        Some(path) => "Exported session to ".to_owned().concat(path),
        None => match value.str_at("summary") {
            Some(summary) => summary.to_owned(),
            None => value.to_pretty(),
        },
    }
}

/// What Pi is told to set a thinking level.
pub open spec fn level_command(level: Seq<char>) -> JsonView {
    typed("set_thinking_level"@).with("level"@, JsonView::String(level))
}

/// What Pi is told to set a thinking level.
pub fn make_level_command(level: &str) -> (r: Json)
    ensures
        r@ == level_command(level@),
{
    make_typed("set_thinking_level").with("level", Json::text(level))
}

/// What Pi is told to set an option. The value of a model is its provider, a slash and its id.
pub open spec fn option_command(option: Seq<char>, value: Seq<char>) -> Option<JsonView> {
    if option == "model"@ {
        match split_first(value, '/') {
            Some((provider, model)) => Some(
                typed("set_model"@).with("provider"@, JsonView::String(provider)).with(
                    "modelId"@,
                    JsonView::String(model),
                ),
            ),
            None => None,
        }
    } else if option == "thought_level"@ {
        Some(level_command(value))
    } else {
        None
    }
}

/// What Pi is told to set an option.
pub fn make_option_command(option: &str, value: &str) -> (r: Option<Json>)
    ensures
        option_command(option@, value@) == (match r {
            Some(command) => Some(command@),
            None => None::<JsonView>,
        }),
{
    if same_text(option, "model") {
        match split_once(value, '/') {
            Some((provider, model)) => Some(
                make_typed("set_model").with("provider", Json::text(provider)).with(
                    "modelId",
                    Json::text(model),
                ),
            ),
            None => None,
        }
    } else if same_text(option, "thought_level") {
        Some(make_level_command(value))
    } else {
        None
    }
}

/// What Pi is told to begin a turn.
pub open spec fn prompt_command(message: Seq<char>, images: Seq<JsonView>) -> JsonView {
    typed("prompt"@).with("message"@, JsonView::String(message)).with(
        "images"@,
        JsonView::Array(images),
    )
}

/// What Pi is told to begin a turn.
pub fn make_prompt_command(message: &str, images: Vec<Json>) -> (r: Json)
    ensures
        r@ == prompt_command(message@, crate::json::items_view(images@)),
{
    make_typed("prompt").with("message", Json::text(message)).with("images", Json::Array(images))
}

/// A text is split where its first half ends, if the half does not hold the character itself.
proof fn lemma_split_first(before: Seq<char>, c: char, after: Seq<char>)
    requires
        !before.contains(c),
    ensures
        split_first(before + seq![c] + after, c) == Some((before, after)),
    decreases before.len(),
{
    let whole = before + seq![c] + after;
    if before.len() == 0 {
        assert(whole.drop_first() =~= after);
        assert(before =~= Seq::empty());
    } else {
        assert(before[0] != c) by {
            assert(before.contains(before[0]));
        }
        assert(whole.drop_first() =~= before.drop_first() + seq![c] + after);
        assert forall|x: char| before.drop_first().contains(x) implies before.contains(x) by {
            let i = choose|i: int|
                0 <= i < before.drop_first().len() && before.drop_first()[i] == x;
            assert(before[i + 1] == x);
        }
        lemma_split_first(before.drop_first(), c, after);
        assert(seq![whole.first()] + before.drop_first() =~= before);
    }
}

/// Choosing a model by the value that it is offered under tells Pi its provider and its id, where
/// the provider has no slash in its name.
pub proof fn offered_model_is_chosen(provider: Seq<char>, id: Seq<char>)
    requires
        !provider.contains('/'),
    ensures
        option_command("model"@, provider + "/"@ + id) == Some(
            typed("set_model"@).with("provider"@, JsonView::String(provider)).with(
                "modelId"@,
                JsonView::String(id),
            ),
        ),
{
    reveal_strlit("/");
    assert("/"@ =~= seq!['/']);
    lemma_split_first(provider, '/', id);
}

/// Every thinking level that is offered is told to Pi as it stands, under either name.
pub proof fn offered_level_is_chosen(level: Seq<char>)
    ensures
        option_command("thought_level"@, level) == Some(level_command(level)),
{
    reveal_strlit("model");
    reveal_strlit("thought_level");
    assert("model"@.len() != "thought_level"@.len());
}

} // verus!
