//! Laws on what the client is offered: the commands, models, thinking levels and modes of a
//! session, and what it reads of them.

use agent_client_protocol_schema::v1::SessionUpdate;
use vstd::prelude::*;

use crate::index::{InfoView, PageView};
use crate::json::{member_is_counted_once, member_reads_back, number_from, JsonView};
use crate::options::{
    all_commands_are_offered, commands_of, has_command, model_choice, model_groups, modes_of,
    options_of, ChoicesView, CommandView, GroupView, OptionView,
};
use crate::replies::{
    choice_json, commands_told, configured_json, created_json, group_json, info_json,
    initialized_json, listed_json, mode_told, notification_json, opened_json, options_json,
    options_told, prompted_json, updates_told,
};
use crate::text::uppercase;
use crate::words::{lemma_agent_keys, lemma_reply_keys};

verus! {

/// Whether a listed command of Pi is the first with its name.
pub open spec fn is_first_of_its_name(listed: Seq<JsonView>, i: int) -> bool {
    &&& 0 <= i < listed.len()
    &&& listed[i].str_at("name"@) is Some
    &&& forall|k: int|
        0 <= k < i ==> (#[trigger] listed[k]).str_at("name"@) != listed[i].str_at("name"@)
}

/// Whether a command is one that Pi lists: it has its name and its description, or is described as
/// a command of Pi's where it has none.
pub open spec fn is_of_pi(command: CommandView, listed: JsonView) -> bool {
    &&& listed.str_at("name"@) == Some(command.name)
    &&& listed.str_at("description"@) is Some ==> Some(command.description) == listed.str_at(
        "description"@,
    )
    &&& listed.str_at("description"@) is None ==> command.description == "Pi command"@
}

/// The adapter's own commands come first, each with what it is for.
pub proof fn own_commands_come_first(listed: Seq<JsonView>)
    ensures
        commands_of(listed).len() >= 6,
        commands_of(listed)[0].name == "compact"@,
        commands_of(listed)[0].description == "Compact the session context"@,
        commands_of(listed)[1].name == "session"@,
        commands_of(listed)[1].description == "Show session usage and cost"@,
        commands_of(listed)[2].name == "name"@,
        commands_of(listed)[2].description == "Set the session display name"@,
        commands_of(listed)[3].name == "steering"@,
        commands_of(listed)[3].description == "Set Pi steering queue behavior"@,
        commands_of(listed)[4].name == "follow-up"@,
        commands_of(listed)[4].description == "Set Pi follow-up queue behavior"@,
        commands_of(listed)[5].name == "export"@,
        commands_of(listed)[5].description == "Export the session as HTML"@,
    decreases listed.len(),
{
    if listed.len() > 0 {
        own_commands_come_first(listed.drop_last());
    }
}

/// What is offered beyond the adapter's own commands is listed by Pi, the first of each name.
pub proof fn other_commands_are_of_pi(listed: Seq<JsonView>, n: int)
    requires
        6 <= n < commands_of(listed).len(),
    ensures
        exists|i: int|
            #![trigger listed[i]]
            is_first_of_its_name(listed, i) && is_of_pi(commands_of(listed)[n], listed[i]),
    decreases listed.len(),
{
    if listed.len() > 0 {
        let front = listed.drop_last();
        let before = commands_of(front);
        if n < before.len() {
            other_commands_are_of_pi(front, n);
            let i = choose|i: int|
                #![trigger front[i]]
                is_first_of_its_name(front, i) && is_of_pi(before[n], front[i]);
            assert(listed[i] == front[i]);
            assert forall|k: int| 0 <= k < i implies (#[trigger] listed[k]).str_at("name"@)
                != listed[i].str_at("name"@) by {
                assert(listed[k] == front[k]);
            }
            assert(is_first_of_its_name(listed, i));
        } else {
            let i = listed.len() - 1;
            let name = listed[i].str_at("name"@)->0;
            all_commands_are_offered(front);
            assert forall|k: int| 0 <= k < i implies (#[trigger] listed[k]).str_at("name"@)
                != listed[i].str_at("name"@) by {
                assert(listed[k] == front[k]);
                if front[k].str_at("name"@) == Some(name) {
                    assert(has_command(before, name));
                }
            }
            assert(is_first_of_its_name(listed, i));
            assert(is_of_pi(commands_of(listed)[n], listed[i]));
        }
    }
}

/// Commands that Pi lists later are offered after those that it lists earlier.
pub proof fn commands_are_offered_in_order(first: Seq<JsonView>, second: Seq<JsonView>)
    ensures
        commands_of(first).is_prefix_of(commands_of(first + second)),
    decreases second.len(),
{
    if second.len() == 0 {
        assert(first + second =~= first);
    } else {
        assert((first + second).drop_last() =~= first + second.drop_last());
        commands_are_offered_in_order(first, second.drop_last());
    }
}

/// Whether Pi lists a model that can be chosen: one with a provider and an id.
pub open spec fn lists_models(models: Seq<JsonView>) -> bool {
    exists|i: int|
        0 <= i < models.len() && (#[trigger] models[i]).str_at("provider"@) is Some
            && models[i].str_at("id"@) is Some
}

/// A model is offered under its name, or its id where it has none, and chosen by its provider and
/// its id.
pub proof fn models_are_described(model: JsonView, provider: Seq<char>, id: Seq<char>)
    ensures
        ({
            let choice = model_choice(model, provider, id);
            &&& choice.value == provider + seq!['/'] + id
            &&& model.str_at("name"@) is Some ==> Some(choice.name) == model.str_at("name"@)
            &&& model.str_at("name"@) is None ==> choice.name == id
            &&& choice.description == model.str_at("description"@)
        }),
{
    reveal_strlit("/");
    assert("/"@ =~= seq!['/']);
}

/// There are groups of models only where Pi lists a model that can be chosen.
proof fn lemma_lists_models(models: Seq<JsonView>)
    ensures
        model_groups(models).len() > 0 <==> lists_models(models),
    decreases models.len(),
{
    if models.len() > 0 {
        let front = models.drop_last();
        lemma_lists_models(front);
        if lists_models(front) {
            let i = choose|i: int|
                0 <= i < front.len() && (#[trigger] front[i]).str_at("provider"@) is Some
                    && front[i].str_at("id"@) is Some;
            assert(models[i].str_at("provider"@) is Some && models[i].str_at("id"@) is Some);
        }
        if models.last().str_at("provider"@) is Some && models.last().str_at("id"@) is Some {
            assert(models[models.len() - 1].str_at("provider"@) is Some);
        } else if lists_models(models) {
            let i = choose|i: int|
                0 <= i < models.len() && (#[trigger] models[i]).str_at("provider"@) is Some
                    && models[i].str_at("id"@) is Some;
            assert(front[i].str_at("provider"@) is Some);
        }
    }
}

/// The text, empty where there is none.
pub open spec fn text_or_empty(text: Option<Seq<char>>) -> Seq<char> {
    match text {
        Some(text) => text,
        None => Seq::empty(),
    }
}

/// The thinking levels that a session can have: all where its model can reason, else `off` only.
pub open spec fn possible_levels(state: JsonView) -> Seq<Seq<char>> {
    if state.get_in("model"@, "reasoning"@) == Some(JsonView::Bool(true)) {
        seq!["off"@, "minimal"@, "low"@, "medium"@, "high"@, "xhigh"@, "max"@]
    } else {
        seq!["off"@]
    }
}

/// A session has an option for its thinking level, after the one for its model, which it has
/// where there are models to choose from.
pub proof fn sessions_have_options(state: JsonView, available: JsonView)
    ensures
        ({
            let options = options_of(state, available);
            let models = available.items_at("models"@);
            &&& options.len() == (if lists_models(models) {
                2nat
            } else {
                1
            })
            &&& options.last().id == "thought_level"@
            &&& options.last().name == "Thinking"@
            &&& options.last().category is ThoughtLevel
            &&& lists_models(models) ==> {
                &&& options[0].id == "model"@
                &&& options[0].name == "Model"@
                &&& options[0].category is Model
                &&& options[0].choices == ChoicesView::Grouped(model_groups(models))
            }
        }),
{
    lemma_lists_models(available.items_at("models"@));
}

/// The current model of a session is named by its provider and its id, and the current thinking
/// level is the one that Pi tells, `off` where it tells none.
pub proof fn current_values_are_those_of_pi(state: JsonView, available: JsonView)
    ensures
        ({
            let options = options_of(state, available);
            let level = state.str_at("thinkingLevel"@);
            &&& level is Some ==> Some(options.last().current) == level
            &&& level is None ==> options.last().current == "off"@
            &&& modes_of(state).current == options.last().current
            &&& options.len() == 2 ==> options[0].current == text_or_empty(
                state.str_in("model"@, "provider"@),
            ) + seq!['/'] + text_or_empty(state.str_in("model"@, "id"@))
        }),
{
    reveal_strlit("/");
    assert("/"@ =~= seq!['/']);
}

/// The thinking levels that are offered, as choices and as modes, are those that the session can
/// have, in the same order, named with a capital letter.
pub proof fn levels_are_offered(state: JsonView, available: JsonView)
    ensures
        ({
            let levels = possible_levels(state);
            let modes = modes_of(state).modes;
            &&& modes.len() == levels.len()
            &&& forall|i: int|
                0 <= i < levels.len() ==> {
                    &&& (#[trigger] modes[i]).id == levels[i]
                    &&& modes[i].name == "Thinking: "@ + (uppercase(levels[i][0])
                        + levels[i].drop_first())
                }
            &&& options_of(state, available).last().choices matches ChoicesView::Flat(choices) && {
                &&& choices.len() == levels.len()
                &&& forall|i: int|
                    0 <= i < levels.len() ==> {
                        &&& (#[trigger] choices[i]).value == levels[i]
                        &&& choices[i].name == uppercase(levels[i][0]) + levels[i].drop_first()
                        &&& choices[i].description is None
                    }
            }
        }),
{
    reveal_strlit("off");
    reveal_strlit("minimal");
    reveal_strlit("low");
    reveal_strlit("medium");
    reveal_strlit("high");
    reveal_strlit("xhigh");
    reveal_strlit("max");
    let levels = possible_levels(state);
    assert forall|i: int| 0 <= i < levels.len() implies #[trigger] levels[i].len() > 0 by {
        assert(levels[0] == "off"@);
        if levels.len() > 1 {
            assert(levels[1] == "minimal"@);
            assert(levels[2] == "low"@);
            assert(levels[3] == "medium"@);
            assert(levels[4] == "high"@);
            assert(levels[5] == "xhigh"@);
            assert(levels[6] == "max"@);
        }
    }
}

/// Whether an object has the text under a key, or lacks the key where there is none.
pub open spec fn may_have(object: JsonView, key: Seq<char>, text: Option<Seq<char>>) -> bool {
    &&& text is Some ==> object.str_at(key) == text
    &&& text is None ==> object.get(key) is None
}

/// A choice is told by its value, its name and the description that it may have; a group of them
/// by its name, which is its id too, and its choices in their order.
pub proof fn groups_are_told(group: GroupView)
    ensures
        ({
            let json = group_json(group);
            &&& json.size() == 3
            &&& json.str_at("group"@) == Some(group.name)
            &&& json.str_at("name"@) == Some(group.name)
            &&& json.get("options"@) matches Some(JsonView::Array(list)) && list.len()
                == group.choices.len() && forall|i: int|
                0 <= i < list.len() ==> #[trigger] list[i] == choice_json(group.choices[i])
        }),
        forall|i: int|
            0 <= i < group.choices.len() ==> {
                let choice = #[trigger] group.choices[i];
                let json = choice_json(choice);
                &&& json.str_at("value"@) == Some(choice.value)
                &&& json.str_at("name"@) == Some(choice.name)
                &&& may_have(json, "description"@, choice.description)
                &&& json.size() == (if choice.description is Some {
                    3nat
                } else {
                    2
                })
            },
{
    broadcast use {member_is_counted_once, member_reads_back};

    lemma_reply_keys();
}

/// An option is told by its id, its name, what it is about, its current value and what can be
/// chosen for it, in order.
pub proof fn options_are_told(options: Seq<OptionView>, i: int)
    requires
        0 <= i < options.len(),
    ensures
        ({
            let option = options[i];
            &&& options_json(options) matches JsonView::Array(list) && list.len() == options.len()
                && {
                let json = list[i];
                &&& json.size() == 6
                &&& json.str_at("id"@) == Some(option.id)
                &&& json.str_at("name"@) == Some(option.name)
                &&& json.str_at("type"@) == Some("select"@)
                &&& json.str_at("currentValue"@) == Some(option.current)
                &&& option.category is Model ==> json.str_at("category"@) == Some("model"@)
                &&& option.category is ThoughtLevel ==> json.str_at("category"@) == Some(
                    "thought_level"@,
                )
                &&& json.get("options"@) matches Some(JsonView::Array(told)) && {
                    &&& option.choices matches ChoicesView::Flat(choices) ==> told.len()
                        == choices.len() && forall|k: int|
                        0 <= k < told.len() ==> #[trigger] told[k] == choice_json(choices[k])
                    &&& option.choices matches ChoicesView::Grouped(groups) ==> told.len()
                        == groups.len() && forall|k: int|
                        0 <= k < told.len() ==> #[trigger] told[k] == group_json(groups[k])
                }
            }
        }),
{
    broadcast use {member_is_counted_once, member_reads_back};

    lemma_reply_keys();
}

/// Whether an object tells the modes and the options of a session.
pub open spec fn tells_session(json: JsonView, state: JsonView, models: JsonView) -> bool {
    let modes = modes_of(state);
    &&& json.get("configOptions"@) == Some(options_json(options_of(state, models)))
    &&& json.get("modes"@) matches Some(told) && {
        &&& told.size() == 2
        &&& told.str_at("currentModeId"@) == Some(modes.current)
        &&& told.get("availableModes"@) matches Some(JsonView::Array(list)) && list.len()
            == modes.modes.len() && forall|i: int|
            0 <= i < list.len() ==> {
                &&& (#[trigger] list[i]).size() == 2
                &&& list[i].str_at("id"@) == Some(modes.modes[i].id)
                &&& list[i].str_at("name"@) == Some(modes.modes[i].name)
            }
    }
}

/// A session that is made, forked or opened is answered with its modes and its options, and a new
/// one with its id too. A request that sets an option is answered with the options.
pub proof fn sessions_are_answered(id: Seq<char>, state: JsonView, models: JsonView)
    ensures
        tells_session(created_json(id, state, models), state, models),
        created_json(id, state, models).size() == 3,
        created_json(id, state, models).str_at("sessionId"@) == Some(id),
        tells_session(opened_json(state, models), state, models),
        opened_json(state, models).size() == 2,
        configured_json(state, models).size() == 1,
        configured_json(state, models).get("configOptions"@) == Some(
            options_json(options_of(state, models)),
        ),
{
    broadcast use {member_is_counted_once, member_reads_back};

    lemma_reply_keys();
}

/// Whether a notification tells a session something of a kind, under a key.
pub open spec fn tells(
    params: JsonView,
    id: Seq<char>,
    kind: Seq<char>,
    key: Seq<char>,
    value: JsonView,
) -> bool {
    &&& params.size() == 2
    &&& params.str_at("sessionId"@) == Some(id)
    &&& params.get("update"@) matches Some(update) && {
        &&& update.size() == 2
        &&& update.str_at("sessionUpdate"@) == Some(kind)
        &&& update.get(key) == Some(value)
    }
}

/// The client is told the mode and the options of a session under the session's id.
pub proof fn changes_are_told(id: Seq<char>, mode: Seq<char>, state: JsonView, models: JsonView)
    ensures
        tells(
            mode_told(id, mode),
            id,
            "current_mode_update"@,
            "currentModeId"@,
            JsonView::String(mode),
        ),
        tells(
            options_told(id, state, models),
            id,
            "config_option_update"@,
            "configOptions"@,
            options_json(options_of(state, models)),
        ),
{
    broadcast use {member_is_counted_once, member_reads_back};

    lemma_reply_keys();
}

/// The client is told the commands of a session, each with its name and its description, in
/// order.
pub proof fn commands_are_told(id: Seq<char>, commands: Seq<CommandView>)
    ensures
        ({
            let params = commands_told(id, commands);
            &&& params.size() == 2
            &&& params.str_at("sessionId"@) == Some(id)
            &&& params.get("update"@) matches Some(update) && {
                &&& update.size() == 2
                &&& update.str_at("sessionUpdate"@) == Some("available_commands_update"@)
                &&& update.get("availableCommands"@) matches Some(JsonView::Array(list))
                    && list.len() == commands.len() && forall|i: int|
                    0 <= i < list.len() ==> {
                        &&& (#[trigger] list[i]).size() == 2
                        &&& list[i].str_at("name"@) == Some(commands[i].name)
                        &&& list[i].str_at("description"@) == Some(commands[i].description)
                    }
            }
        }),
{
    broadcast use {member_is_counted_once, member_reads_back};

    lemma_reply_keys();
}

/// A prompt that was cancelled is answered so, and any other has come to the end of its turn.
pub proof fn prompts_are_answered_by_how_they_ended(cancelled: bool)
    ensures
        prompted_json(cancelled).size() == 1,
        prompted_json(true).str_at("stopReason"@) == Some("cancelled"@),
        prompted_json(false).str_at("stopReason"@) == Some("end_turn"@),
{
    broadcast use {member_is_counted_once, member_reads_back};

}

/// Whether an object tells a session of the index.
pub open spec fn tells_info(json: JsonView, info: InfoView) -> bool {
    &&& json.str_at("sessionId"@) == Some(info.session_id)
    &&& json.str_at("cwd"@) == Some(info.cwd)
    &&& may_have(json, "title"@, info.title)
    &&& may_have(json, "updatedAt"@, info.updated_at)
    &&& json.size() == 2 + (if info.title is Some {
        1nat
    } else {
        0
    }) + (if info.updated_at is Some {
        1nat
    } else {
        0
    })
}

/// A page of sessions is answered session by session, in order, with the cursor of the next page
/// where there is one.
pub proof fn pages_are_told(page: PageView)
    ensures
        ({
            let json = listed_json(page);
            &&& may_have(json, "nextCursor"@, page.next_cursor)
            &&& json.size() == (if page.next_cursor is Some {
                2nat
            } else {
                1
            })
            &&& json.get("sessions"@) matches Some(JsonView::Array(list)) && list.len()
                == page.sessions.len() && forall|i: int|
                0 <= i < list.len() ==> tells_info(#[trigger] list[i], page.sessions[i])
        }),
{
    broadcast use {member_is_counted_once, member_reads_back};

    lemma_reply_keys();
    assert forall|i: int| 0 <= i < page.sessions.len() implies tells_info(
        info_json(#[trigger] page.sessions[i]),
        page.sessions[i],
    ) by {}
}

/// Updates are told one by one, in order, up to the first that cannot be.
pub proof fn updates_are_told_in_order(id: Seq<char>, updates: Seq<SessionUpdate>)
    ensures
        ({
            let told = updates_told(id, updates);
            &&& told.params.len() <= updates.len()
            &&& forall|i: int|
                0 <= i < told.params.len() ==> #[trigger] notification_json(id, updates[i]) == Ok::<
                    JsonView,
                    Seq<char>,
                >(told.params[i])
            &&& told.error is None <==> told.params.len() == updates.len()
            &&& told.error matches Some(text) ==> notification_json(
                id,
                updates[told.params.len() as int],
            ) == Err::<JsonView, Seq<char>>(text)
        }),
    decreases updates.len(),
{
    if updates.len() > 0 {
        let front = updates.drop_last();
        updates_are_told_in_order(id, front);
        let before = updates_told(id, front);
        let told = updates_told(id, updates);
        assert forall|i: int| 0 <= i < told.params.len() implies #[trigger] notification_json(
            id,
            updates[i],
        ) == Ok::<JsonView, Seq<char>>(told.params[i]) by {
            if i < before.params.len() {
                assert(notification_json(id, front[i]) == Ok::<JsonView, Seq<char>>(
                    before.params[i],
                ));
            }
        }
        if before.error is Some {
            assert(front[before.params.len() as int] == updates[before.params.len() as int]);
        }
    }
}

/// The adapter answers with the client's own protocol version, and says what it can do: load
/// sessions, take images and resources but no audio, and list, fork, resume and close sessions.
/// A login is offered only where the client has a terminal.
pub proof fn adapter_presents_itself(protocol_version: u16, terminal: bool)
    ensures
        ({
            let json = initialized_json(protocol_version, terminal);
            let yes = Some(JsonView::Bool(true));
            let no = Some(JsonView::Bool(false));
            &&& json.size() == 4
            &&& json.get("protocolVersion"@) == Some(
                JsonView::Number(number_from(protocol_version as i64)),
            )
            &&& json.get("agentInfo"@) matches Some(info) && {
                &&& info.size() == 3
                &&& info.str_at("name"@) == Some("pi-acp-rust"@)
                &&& info.str_at("title"@) == Some("Pi ACP (Rust)"@)
                &&& info.str_at("version"@) == Some("0.1.0"@)
            }
            &&& json.get("agentCapabilities"@) matches Some(can) && {
                &&& can.size() == 5
                &&& can.get("loadSession"@) == yes
                &&& can.get_in("promptCapabilities"@, "image"@) == yes
                &&& can.get_in("promptCapabilities"@, "audio"@) == no
                &&& can.get_in("promptCapabilities"@, "embeddedContext"@) == yes
                &&& can.get_in("mcpCapabilities"@, "http"@) == no
                &&& can.get_in("mcpCapabilities"@, "sse"@) == no
                &&& can.get_in("sessionCapabilities"@, "list"@) is Some
                &&& can.get_in("sessionCapabilities"@, "fork"@) is Some
                &&& can.get_in("sessionCapabilities"@, "resume"@) is Some
                &&& can.get_in("sessionCapabilities"@, "close"@) is Some
                &&& can.get("auth"@) == Some(JsonView::object())
            }
            &&& json.get("authMethods"@) matches Some(JsonView::Array(methods)) && {
                &&& methods.len() == (if terminal {
                    1nat
                } else {
                    0
                })
                &&& terminal ==> {
                    &&& methods[0].size() == 4
                    &&& methods[0].str_at("type"@) == Some("terminal"@)
                    &&& methods[0].str_at("id"@) == Some("pi-terminal-login"@)
                    &&& methods[0].str_at("name"@) == Some("Log in with Pi"@)
                    &&& methods[0].items_at("args"@) == seq![
                        JsonView::String("--terminal-login"@),
                    ]
                }
            }
        }),
{
    broadcast use {member_is_counted_once, member_reads_back};

    lemma_agent_keys();
}

} // verus!
