//! What a session offers to choose from: commands, models and thinking levels.

use vstd::prelude::*;

use crate::json::{items_view, lemma_items_view, Json, JsonView};
use crate::text::{
    comes_before, lemma_before_irreflexive, lemma_before_total, lemma_before_transitive, opt_string,
    opt_text, same_text, text_less, title_case, title_cased,
};

verus! {

/// A slash command.
pub struct AvailableCommand {
    pub name: String,
    pub description: String,
}

/// What an [`AvailableCommand`] is.
pub struct CommandView {
    pub name: Seq<char>,
    pub description: Seq<char>,
}

impl View for AvailableCommand {
    type V = CommandView;

    open spec fn view(&self) -> CommandView {
        CommandView { name: self.name@, description: self.description@ }
    }
}

/// The views of a list of commands.
pub open spec fn command_views(list: Seq<AvailableCommand>) -> Seq<CommandView> {
    list.map_values(|c: AvailableCommand| c@)
}

/// Whether a command of the name is in the list.
pub open spec fn has_command(list: Seq<CommandView>, name: Seq<char>) -> bool {
    exists|i: int| 0 <= i < list.len() && #[trigger] list[i].name == name
}

/// The commands that are handled without Pi's own registry.
pub open spec fn own_commands() -> Seq<CommandView> {
    seq![
        CommandView { name: "compact"@, description: "Compact the session context"@ },
        CommandView { name: "session"@, description: "Show session usage and cost"@ },
        CommandView { name: "name"@, description: "Set the session display name"@ },
        CommandView { name: "steering"@, description: "Set Pi steering queue behavior"@ },
        CommandView { name: "follow-up"@, description: "Set Pi follow-up queue behavior"@ },
        CommandView { name: "export"@, description: "Export the session as HTML"@ },
    ]
}

/// The own commands and then those of Pi that have a name which is not taken yet.
pub open spec fn commands_of(listed: Seq<JsonView>) -> Seq<CommandView>
    decreases listed.len(),
{
    if listed.len() == 0 {
        own_commands()
    } else {
        let before = commands_of(listed.drop_last());
        let command = listed.last();
        match command.str_at("name"@) {
            Some(name) if !has_command(before, name) => before.push(
                CommandView {
                    name,
                    description: match command.str_at("description"@) {
                        Some(description) => description,
                        None => "Pi command"@,
                    },
                },
            ),
            _ => before,
        }
    }
}

/// A command.
fn command(name: &str, description: &str) -> (r: AvailableCommand)
    ensures
        r@ == (CommandView { name: name@, description: description@ }),
{
    AvailableCommand { name: name.to_owned(), description: description.to_owned() }
}

/// Whether a command of the name is in the list.
fn contains_command(list: &Vec<AvailableCommand>, name: &str) -> (r: bool)
    ensures
        r == has_command(command_views(list@), name@),
{
    let mut i: usize = 0;
    while i < list.len()
        invariant
            i <= list.len(),
            forall|k: int| 0 <= k < i ==> (#[trigger] command_views(list@)[k]).name != name@,
        decreases list.len() - i,
    {
        if same_text(list[i].name.as_str(), name) {
            assert(command_views(list@)[i as int].name == name@);
            return true;
        }
        i = i + 1;
    }
    false
}

/// The commands of a session: those handled here, then those that Pi lists under `commands`.
pub fn commands(value: &Json) -> (r: Vec<AvailableCommand>)
    ensures
        command_views(r@) == commands_of(value@.items_at("commands"@)),
{
    let mut list: Vec<AvailableCommand> = Vec::new();
    list.push(command("compact", "Compact the session context"));
    list.push(command("session", "Show session usage and cost"));
    list.push(command("name", "Set the session display name"));
    list.push(command("steering", "Set Pi steering queue behavior"));
    list.push(command("follow-up", "Set Pi follow-up queue behavior"));
    list.push(command("export", "Export the session as HTML"));
    assert(command_views(list@) =~= own_commands());
    let more: &Vec<Json> = match value.items_at("commands") {
        Some(more) => more,
        None => return list,
    };
    let ghost all = items_view(more@);
    proof {
        lemma_items_view(more@);
    }
    let mut i: usize = 0;
    while i < more.len()
        invariant
            i <= more.len(),
            all.len() == more.len(),
            forall|k: int| 0 <= k < more.len() ==> #[trigger] all[k] == more[k]@,
            command_views(list@) == commands_of(all.take(i as int)),
        decreases more.len() - i,
    {
        proof {
            assert(all.take(i + 1).drop_last() =~= all.take(i as int));
            assert(all.take(i + 1).last() == more[i as int]@);
        }
        if let Some(name) = more[i].str_at("name") {
            let description: &str = match more[i].str_at("description") {
                Some(description) => description,
                None => "Pi command",
            };
            if !contains_command(&list, name) {
                let ghost before = list@;
                list.push(command(name, description));
                assert(command_views(list@) =~= command_views(before).push(list@.last()@));
            }
        }
        i = i + 1;
    }
    assert(all.take(i as int) =~= all);
    list
}

/// One of the values that an option can take.
pub struct Choice {
    pub value: String,
    pub name: String,
    pub description: Option<String>,
}

/// What a [`Choice`] is.
pub struct ChoiceView {
    pub value: Seq<char>,
    pub name: Seq<char>,
    pub description: Option<Seq<char>>,
}

impl View for Choice {
    type V = ChoiceView;

    open spec fn view(&self) -> ChoiceView {
        ChoiceView {
            value: self.value@,
            name: self.name@,
            description: opt_string(self.description),
        }
    }
}

/// The views of a list of choices.
pub open spec fn choice_views(list: Seq<Choice>) -> Seq<ChoiceView> {
    list.map_values(|c: Choice| c@)
}

/// Choices under a common name.
pub struct Group {
    pub name: String,
    pub choices: Vec<Choice>,
}

/// What a [`Group`] is.
pub struct GroupView {
    pub name: Seq<char>,
    pub choices: Seq<ChoiceView>,
}

impl View for Group {
    type V = GroupView;

    open spec fn view(&self) -> GroupView {
        GroupView { name: self.name@, choices: choice_views(self.choices@) }
    }
}

/// The views of a list of groups.
pub open spec fn group_views(list: Seq<Group>) -> Seq<GroupView> {
    list.map_values(|g: Group| g@)
}

/// `groups`, which are in the order of their names, with a choice at the end of the group of its
/// name.
pub open spec fn entered(
    groups: Seq<GroupView>,
    name: Seq<char>,
    choice: ChoiceView,
) -> Seq<GroupView>
    decreases groups.len(),
{
    if groups.len() == 0 || comes_before(name, groups[0].name) {
        seq![GroupView { name, choices: seq![choice] }] + groups
    } else if groups[0].name == name {
        seq![GroupView { name, choices: groups[0].choices.push(choice) }] + groups.drop_first()
    } else {
        seq![groups[0]] + entered(groups.drop_first(), name, choice)
    }
}

/// A model as a choice: it is chosen by `provider/id`.
pub open spec fn model_choice(model: JsonView, provider: Seq<char>, id: Seq<char>) -> ChoiceView {
    ChoiceView {
        value: provider + "/"@ + id,
        name: match model.str_at("name"@) {
            Some(name) => name,
            None => id,
        },
        description: model.str_at("description"@),
    }
}

/// The models that have a provider and an id, grouped by provider.
pub open spec fn model_groups(models: Seq<JsonView>) -> Seq<GroupView>
    decreases models.len(),
{
    if models.len() == 0 {
        Seq::empty()
    } else {
        let before = model_groups(models.drop_last());
        let model = models.last();
        match (model.str_at("provider"@), model.str_at("id"@)) {
            (Some(provider), Some(id)) => entered(
                before,
                provider,
                model_choice(model, provider, id),
            ),
            _ => before,
        }
    }
}

/// Puts a choice at the end of the group of its name.
fn enter(groups: &mut Vec<Group>, name: &str, choice: Choice)
    ensures
        group_views(final(groups)@) == entered(group_views(old(groups)@), name@, choice@),
{
    let ghost start = group_views(groups@);
    let mut i: usize = 0;
    assert(start.skip(0) =~= start);
    assert(entered(start, name@, choice@) =~= start.take(0) + entered(start, name@, choice@));
    while i < groups.len() && !text_less(name, groups[i].name.as_str()) && !same_text(
        groups[i].name.as_str(),
        name,
    )
        invariant
            i <= groups.len(),
            groups@ == old(groups)@,
            start == group_views(groups@),
            entered(start, name@, choice@) == start.take(i as int) + entered(
                start.skip(i as int),
                name@,
                choice@,
            ),
        decreases groups.len() - i,
    {
        assert(start.skip(i as int)[0] == groups@[i as int]@);
        assert(start.skip(i as int).drop_first() =~= start.skip(i + 1));
        assert(entered(start, name@, choice@) =~= start.take(i + 1) + entered(
            start.skip(i + 1),
            name@,
            choice@,
        ));
        i = i + 1;
    }
    if i < groups.len() && same_text(groups[i].name.as_str(), name) && !text_less(
        name,
        groups[i].name.as_str(),
    ) {
        let mut group = groups.remove(i);
        let ghost before = group.choices@;
        group.choices.push(choice);
        assert(choice_views(group.choices@) =~= choice_views(before).push(choice@));
        groups.insert(i, group);
        proof {
            assert(start.skip(i as int)[0] == old(groups)@[i as int]@);
            assert(group_views(groups@) =~= start.take(i as int) + entered(
                start.skip(i as int),
                name@,
                choice@,
            ));
        }
    } else {
        let mut choices: Vec<Choice> = Vec::new();
        choices.push(choice);
        assert(choice_views(choices@) =~= seq![choice@]);
        groups.insert(i, Group { name: name.to_owned(), choices });
        proof {
            if i < old(groups).len() {
                assert(start.skip(i as int)[0] == old(groups)@[i as int]@);
            }
            assert(group_views(groups@) =~= start.take(i as int) + entered(
                start.skip(i as int),
                name@,
                choice@,
            ));
        }
    }
}

/// The models that have a provider and an id, grouped by provider.
fn group_models(models: &Vec<Json>) -> (r: Vec<Group>)
    ensures
        group_views(r@) == model_groups(items_view(models@)),
{
    let ghost all = items_view(models@);
    proof {
        lemma_items_view(models@);
    }
    let mut groups: Vec<Group> = Vec::new();
    let mut i: usize = 0;
    assert(group_views(groups@) =~= Seq::<GroupView>::empty());
    while i < models.len()
        invariant
            i <= models.len(),
            all.len() == models.len(),
            forall|k: int| 0 <= k < models.len() ==> #[trigger] all[k] == models[k]@,
            group_views(groups@) == model_groups(all.take(i as int)),
        decreases models.len() - i,
    {
        proof {
            assert(all.take(i + 1).drop_last() =~= all.take(i as int));
            assert(all.take(i + 1).last() == models[i as int]@);
        }
        let model: &Json = &models[i];
        if let (Some(provider), Some(id)) = (model.str_at("provider"), model.str_at("id")) {
            let name: &str = match model.str_at("name") {
                Some(name) => name,
                None => id,
            };
            let description: Option<String> = match model.str_at("description") {
                Some(description) => Some(description.to_owned()),
                None => None,
            };
            enter(
                &mut groups,
                provider,
                Choice {
                    value: provider.to_owned().concat("/").concat(id),
                    name: name.to_owned(),
                    description,
                },
            );
        }
        i = i + 1;
    }
    assert(all.take(i as int) =~= all);
    groups
}

/// What an option is about.
#[derive(Clone, Copy, PartialEq, Eq, Structural, Debug)]
pub enum Category {
    Model,
    ThoughtLevel,
}

/// The values that an option can take.
pub enum Choices {
    Flat(Vec<Choice>),
    Grouped(Vec<Group>),
}

/// What [`Choices`] are.
pub enum ChoicesView {
    Flat(Seq<ChoiceView>),
    Grouped(Seq<GroupView>),
}

impl View for Choices {
    type V = ChoicesView;

    open spec fn view(&self) -> ChoicesView {
        match self {
            Choices::Flat(choices) => ChoicesView::Flat(choice_views(choices@)),
            Choices::Grouped(groups) => ChoicesView::Grouped(group_views(groups@)),
        }
    }
}

/// An option of a session: one value is chosen of several.
pub struct ConfigOption {
    pub id: String,
    pub name: String,
    pub current: String,
    pub choices: Choices,
    pub category: Category,
}

/// What a [`ConfigOption`] is.
pub struct OptionView {
    pub id: Seq<char>,
    pub name: Seq<char>,
    pub current: Seq<char>,
    pub choices: ChoicesView,
    pub category: Category,
}

impl View for ConfigOption {
    type V = OptionView;

    open spec fn view(&self) -> OptionView {
        OptionView {
            id: self.id@,
            name: self.name@,
            current: self.current@,
            choices: self.choices@,
            category: self.category,
        }
    }
}

/// The views of a list of options.
pub open spec fn option_views(list: Seq<ConfigOption>) -> Seq<OptionView> {
    list.map_values(|o: ConfigOption| o@)
}

/// The string, empty for `None`.
pub open spec fn or_empty(s: Option<Seq<char>>) -> Seq<char> {
    match s {
        Some(s) => s,
        None => Seq::empty(),
    }
}

/// The thinking level of a session.
pub open spec fn thinking_of(state: JsonView) -> Seq<char> {
    match state.str_at("thinkingLevel"@) {
        Some(level) => level,
        None => "off"@,
    }
}

/// Whether the model of a session can reason.
pub open spec fn reasons(state: JsonView) -> bool {
    state.get_in("model"@, "reasoning"@) == Some(JsonView::Bool(true))
}

/// The thinking levels of a session: all of them where its model can reason, else none but `off`.
pub open spec fn levels_of(state: JsonView) -> Seq<Seq<char>> {
    if reasons(state) {
        seq!["off"@, "minimal"@, "low"@, "medium"@, "high"@, "xhigh"@, "max"@]
    } else {
        seq!["off"@]
    }
}

/// A thinking level as a choice.
pub open spec fn level_choice(level: Seq<char>) -> ChoiceView {
    ChoiceView { value: level, name: title_cased(level), description: None }
}

/// The option that chooses the model.
pub open spec fn model_option(state: JsonView, groups: Seq<GroupView>) -> OptionView {
    OptionView {
        id: "model"@,
        name: "Model"@,
        current: or_empty(state.str_in("model"@, "provider"@)) + "/"@ + or_empty(
            state.str_in("model"@, "id"@),
        ),
        choices: ChoicesView::Grouped(groups),
        category: Category::Model,
    }
}

/// The option that chooses the thinking level.
pub open spec fn thinking_option(state: JsonView) -> OptionView {
    OptionView {
        id: "thought_level"@,
        name: "Thinking"@,
        current: thinking_of(state),
        choices: ChoicesView::Flat(levels_of(state).map_values(|l: Seq<char>| level_choice(l))),
        category: Category::ThoughtLevel,
    }
}

/// The options of a session: its model, where there are models to choose from, and its thinking
/// level.
pub open spec fn options_of(state: JsonView, available: JsonView) -> Seq<OptionView> {
    let groups = model_groups(available.items_at("models"@));
    if groups.len() == 0 {
        seq![thinking_option(state)]
    } else {
        seq![model_option(state, groups), thinking_option(state)]
    }
}

/// The thinking level of a session.
fn thinking(state: &Json) -> (r: &str)
    ensures
        r@ == thinking_of(state@),
{
    match state.str_at("thinkingLevel") {
        Some(level) => level,
        None => "off",
    }
}

/// The thinking levels of a session.
fn levels(state: &Json) -> (r: Vec<&'static str>)
    ensures
        r@.map_values(|l: &'static str| l@) == levels_of(state@),
{
    let reasoning: bool = match state.get_in("model", "reasoning") {
        Some(Json::Bool(b)) => *b,
        _ => false,
    };
    let mut list: Vec<&'static str> = Vec::new();
    list.push("off");
    if reasoning {
        list.push("minimal");
        list.push("low");
        list.push("medium");
        list.push("high");
        list.push("xhigh");
        list.push("max");
    }
    assert(list@.map_values(|l: &'static str| l@) =~= levels_of(state@));
    list
}

/// The string, empty for `None`.
fn text_or_empty(s: Option<&str>) -> (r: &str)
    ensures
        r@ == or_empty(opt_text(s)),
{
    match s {
        Some(s) => s,
        None => {
            proof {
                reveal_strlit("");
                assert(""@ =~= Seq::<char>::empty());
            }
            ""
        },
    }
}

/// The options of a session, from Pi's state and the models that it has available.
pub fn config_options(state: &Json, available: &Json) -> (r: Vec<ConfigOption>)
    ensures
        option_views(r@) == options_of(state@, available@),
{
    let groups: Vec<Group> = match available.items_at("models") {
        Some(models) => group_models(models),
        None => {
            let none: Vec<Group> = Vec::new();
            assert(group_views(none@) =~= Seq::<GroupView>::empty());
            none
        },
    };
    let mut list: Vec<ConfigOption> = Vec::new();
    let ghost group_list = group_views(groups@);
    if groups.len() > 0 {
        let current: String = text_or_empty(state.str_in("model", "provider")).to_owned().concat(
            "/",
        ).concat(text_or_empty(state.str_in("model", "id")));
        list.push(
            ConfigOption {
                id: "model".to_owned(),
                name: "Model".to_owned(),
                current,
                choices: Choices::Grouped(groups),
                category: Category::Model,
            },
        );
    }
    let names: Vec<&'static str> = levels(state);
    let mut choices: Vec<Choice> = Vec::new();
    let mut i: usize = 0;
    while i < names.len()
        invariant
            i <= names.len(),
            choices.len() == i,
            forall|k: int| 0 <= k < i ==> (#[trigger] choices[k])@ == level_choice(names[k]@),
        decreases names.len() - i,
    {
        choices.push(
            Choice { value: names[i].to_owned(), name: title_case(names[i]), description: None },
        );
        i = i + 1;
    }
    proof {
        let levels = levels_of(state@);
        assert forall|k: int| 0 <= k < choices.len() implies (#[trigger] choices@[k])@
            == level_choice(levels[k]) by {
            assert(levels[k] == names@.map_values(|l: &'static str| l@)[k]);
        }
        assert(choice_views(choices@) =~= levels.map_values(|l: Seq<char>| level_choice(l)));
    }
    list.push(
        ConfigOption {
            id: "thought_level".to_owned(),
            name: "Thinking".to_owned(),
            current: thinking(state).to_owned(),
            choices: Choices::Flat(choices),
            category: Category::ThoughtLevel,
        },
    );
    assert(option_views(list@) =~= options_of(state@, available@));
    list
}

/// A mode of a session.
pub struct Mode {
    pub id: String,
    pub name: String,
}

/// What a [`Mode`] is.
pub struct ModeView {
    pub id: Seq<char>,
    pub name: Seq<char>,
}

impl View for Mode {
    type V = ModeView;

    open spec fn view(&self) -> ModeView {
        ModeView { id: self.id@, name: self.name@ }
    }
}

/// The modes of a session and which of them it is in.
pub struct ModeState {
    pub current: String,
    pub modes: Vec<Mode>,
}

/// What a [`ModeState`] is.
pub struct ModeStateView {
    pub current: Seq<char>,
    pub modes: Seq<ModeView>,
}

impl View for ModeState {
    type V = ModeStateView;

    open spec fn view(&self) -> ModeStateView {
        ModeStateView {
            current: self.current@,
            modes: self.modes@.map_values(|m: Mode| m@),
        }
    }
}

/// A thinking level as a mode.
pub open spec fn level_mode(level: Seq<char>) -> ModeView {
    ModeView { id: level, name: "Thinking: "@ + title_cased(level) }
}

/// The thinking levels of a session as its modes.
pub open spec fn modes_of(state: JsonView) -> ModeStateView {
    ModeStateView {
        current: thinking_of(state),
        modes: levels_of(state).map_values(|l: Seq<char>| level_mode(l)),
    }
}

/// The thinking levels of a session as its modes.
pub fn mode_state(state: &Json) -> (r: ModeState)
    ensures
        r@ == modes_of(state@),
{
    let names: Vec<&'static str> = levels(state);
    let mut modes: Vec<Mode> = Vec::new();
    let mut i: usize = 0;
    while i < names.len()
        invariant
            i <= names.len(),
            modes.len() == i,
            forall|k: int| 0 <= k < i ==> (#[trigger] modes[k])@ == level_mode(names[k]@),
        decreases names.len() - i,
    {
        modes.push(
            Mode {
                id: names[i].to_owned(),
                name: "Thinking: ".to_owned().concat(title_case(names[i]).as_str()),
            },
        );
        i = i + 1;
    }
    proof {
        let levels = levels_of(state@);
        assert forall|k: int| 0 <= k < modes.len() implies (#[trigger] modes@[k])@ == level_mode(
            levels[k],
        ) by {
            assert(levels[k] == names@.map_values(|l: &'static str| l@)[k]);
        }
        assert(modes@.map_values(|m: Mode| m@) =~= levels.map_values(
            |l: Seq<char>| level_mode(l),
        ));
    }
    ModeState { current: thinking(state).to_owned(), modes }
}

/// No name is offered twice, whatever commands Pi has.
pub proof fn command_names_are_unique(listed: Seq<JsonView>)
    ensures
        forall|i: int, j: int|
            0 <= i < j < commands_of(listed).len() ==> #[trigger] commands_of(listed)[i].name
                != #[trigger] commands_of(listed)[j].name,
    decreases listed.len(),
{
    if listed.len() == 0 {
        reveal_strlit("compact");
        reveal_strlit("session");
        reveal_strlit("name");
        reveal_strlit("steering");
        reveal_strlit("follow-up");
        reveal_strlit("export");
        let own = own_commands();
        assert(own[0].name.len() == 7 && own[0].name[0] == 'c');
        assert(own[1].name.len() == 7 && own[1].name[0] == 's');
        assert(own[2].name.len() == 4);
        assert(own[3].name.len() == 8);
        assert(own[4].name.len() == 9);
        assert(own[5].name.len() == 6);
    } else {
        command_names_are_unique(listed.drop_last());
        let before = commands_of(listed.drop_last());
        let after = commands_of(listed);
        assert forall|i: int, j: int| 0 <= i < j < after.len() implies #[trigger] after[i].name
            != #[trigger] after[j].name by {
            assert(after[i] == before[i]);
            if j < before.len() {
                assert(after[j] == before[j]);
            } else {
                assert(before[i].name == after[i].name);
            }
        }
    }
}

/// The adapter's own commands are offered first, and every command of Pi's that has a name is
/// offered under it.
pub proof fn all_commands_are_offered(listed: Seq<JsonView>)
    ensures
        own_commands().is_prefix_of(commands_of(listed)),
        forall|i: int|
            0 <= i < listed.len() ==> ((#[trigger] listed[i]).str_at("name"@) matches Some(name)
                ==> has_command(commands_of(listed), name)),
    decreases listed.len(),
{
    if listed.len() > 0 {
        let front = listed.drop_last();
        all_commands_are_offered(front);
        let before = commands_of(front);
        let after = commands_of(listed);
        assert(before.is_prefix_of(after));
        assert forall|name: Seq<char>| #[trigger] has_command(before, name) implies has_command(
            after,
            name,
        ) by {
            let k = choose|k: int| 0 <= k < before.len() && #[trigger] before[k].name == name;
            assert(after[k].name == name);
        }
        assert forall|i: int| 0 <= i < listed.len() implies ((#[trigger] listed[i]).str_at(
            "name"@,
        ) matches Some(name) ==> has_command(after, name)) by {
            if i < front.len() {
                assert(listed[i] == front[i]);
            } else if let Some(name) = listed[i].str_at("name"@) {
                if !has_command(before, name) {
                    assert(after[before.len() as int].name == name);
                }
            }
        }
    }
}

/// Whether groups are in the order of their names, with no name twice.
pub open spec fn groups_in_order(groups: Seq<GroupView>) -> bool {
    forall|i: int, j: int|
        0 <= i < j < groups.len() ==> comes_before(
            #[trigger] groups[i].name,
            #[trigger] groups[j].name,
        )
}

/// Whether a choice is in the group of a name.
pub open spec fn is_offered(groups: Seq<GroupView>, name: Seq<char>, choice: ChoiceView) -> bool {
    exists|i: int|
        0 <= i < groups.len() && #[trigger] groups[i].name == name && groups[i].choices.contains(
            choice,
        )
}

proof fn lemma_entered(groups: Seq<GroupView>, name: Seq<char>, choice: ChoiceView)
    requires
        groups_in_order(groups),
    ensures
        groups_in_order(entered(groups, name, choice)),
        is_offered(entered(groups, name, choice), name, choice),
        forall|other: Seq<char>, old: ChoiceView|
            is_offered(groups, other, old) ==> #[trigger] is_offered(
                entered(groups, name, choice),
                other,
                old,
            ),
        forall|i: int|
            0 <= i < entered(groups, name, choice).len() ==> (#[trigger] entered(
                groups,
                name,
                choice,
            )[i].name == name || exists|j: int|
                0 <= j < groups.len() && #[trigger] groups[j].name == entered(
                    groups,
                    name,
                    choice,
                )[i].name),
    decreases groups.len(),
{
    let after = entered(groups, name, choice);
    if groups.len() == 0 || comes_before(name, groups[0].name) {
        let new = GroupView { name, choices: seq![choice] };
        assert(after[0] == new);
        assert(new.choices[0] == choice);
        assert(after[0].name == name && after[0].choices.contains(choice));
        assert forall|i: int, j: int| 0 <= i < j < after.len() implies comes_before(
            #[trigger] after[i].name,
            #[trigger] after[j].name,
        ) by {
            assert(after[j] == groups[j - 1]);
            if i == 0 {
                if j > 1 {
                    assert(comes_before(groups[0].name, groups[j - 1].name));
                    lemma_before_transitive(name, groups[0].name, groups[j - 1].name);
                }
            } else {
                assert(after[i] == groups[i - 1]);
            }
        }
        assert forall|other: Seq<char>, old: ChoiceView| is_offered(
            groups,
            other,
            old,
        ) implies #[trigger] is_offered(after, other, old) by {
            let k = choose|k: int|
                0 <= k < groups.len() && #[trigger] groups[k].name == other
                    && groups[k].choices.contains(old);
            assert(after[k + 1] == groups[k]);
        }
        assert forall|i: int| 0 <= i < after.len() implies (#[trigger] after[i].name == name
            || exists|j: int| 0 <= j < groups.len() && #[trigger] groups[j].name == after[i].name)
            by {
            if i > 0 {
                assert(after[i] == groups[i - 1]);
            }
        }
    } else if groups[0].name == name {
        let new = GroupView { name, choices: groups[0].choices.push(choice) };
        assert(after[0] == new);
        assert(new.choices[groups[0].choices.len() as int] == choice);
        assert(after[0].name == name && after[0].choices.contains(choice));
        assert forall|i: int| 0 < i < after.len() implies #[trigger] after[i] == groups[i] by {
        }
        assert forall|i: int, j: int| 0 <= i < j < after.len() implies comes_before(
            #[trigger] after[i].name,
            #[trigger] after[j].name,
        ) by {
            assert(after[j] == groups[j]);
            assert(after[i].name == groups[i].name);
        }
        assert forall|other: Seq<char>, old: ChoiceView| is_offered(
            groups,
            other,
            old,
        ) implies #[trigger] is_offered(after, other, old) by {
            let k = choose|k: int|
                0 <= k < groups.len() && #[trigger] groups[k].name == other
                    && groups[k].choices.contains(old);
            if k == 0 {
                let c = choose|c: int|
                    0 <= c < groups[0].choices.len() && groups[0].choices[c] == old;
                assert(new.choices[c] == old);
                assert(after[0].name == other);
            } else {
                assert(after[k].name == other);
            }
        }
        assert forall|i: int| 0 <= i < after.len() implies (#[trigger] after[i].name == name
            || exists|j: int| 0 <= j < groups.len() && #[trigger] groups[j].name == after[i].name)
            by {
            if i > 0 {
                assert(groups[i].name == after[i].name);
            }
        }
    } else {
        let rest = groups.drop_first();
        assert forall|i: int, j: int| 0 <= i < j < rest.len() implies comes_before(
            #[trigger] rest[i].name,
            #[trigger] rest[j].name,
        ) by {
            assert(rest[i] == groups[i + 1]);
            assert(rest[j] == groups[j + 1]);
        }
        lemma_entered(rest, name, choice);
        lemma_before_total(name, groups[0].name);
        let later = entered(rest, name, choice);
        assert(after[0] == groups[0]);
        assert forall|i: int| 0 < i < after.len() implies #[trigger] after[i] == later[i - 1] by {
        }
        assert forall|i: int, j: int| 0 <= i < j < after.len() implies comes_before(
            #[trigger] after[i].name,
            #[trigger] after[j].name,
        ) by {
            assert(after[j] == later[j - 1]);
            if i == 0 {
                if later[j - 1].name != name {
                    let k = choose|k: int|
                        0 <= k < rest.len() && #[trigger] rest[k].name == later[j - 1].name;
                    assert(rest[k] == groups[k + 1]);
                    assert(comes_before(groups[0].name, groups[k + 1].name));
                }
            } else {
                assert(after[i] == later[i - 1]);
            }
        }
        let p = choose|p: int|
            0 <= p < later.len() && #[trigger] later[p].name == name
                && later[p].choices.contains(choice);
        assert(after[p + 1] == later[p]);
        assert(after[p + 1].name == name && after[p + 1].choices.contains(choice));
        assert forall|other: Seq<char>, old: ChoiceView| is_offered(
            groups,
            other,
            old,
        ) implies #[trigger] is_offered(after, other, old) by {
            let k = choose|k: int|
                0 <= k < groups.len() && #[trigger] groups[k].name == other
                    && groups[k].choices.contains(old);
            if k == 0 {
                assert(after[0].name == other);
            } else {
                assert(rest[k - 1] == groups[k]);
                assert(is_offered(rest, other, old));
                assert(is_offered(later, other, old));
                let q = choose|q: int|
                    0 <= q < later.len() && #[trigger] later[q].name == other
                        && later[q].choices.contains(old);
                assert(after[q + 1] == later[q]);
            }
        }
        assert forall|i: int| 0 <= i < after.len() implies (#[trigger] after[i].name == name
            || exists|j: int| 0 <= j < groups.len() && #[trigger] groups[j].name == after[i].name)
            by {
            if i == 0 {
                assert(groups[0].name == after[0].name);
            } else {
                assert(after[i] == later[i - 1]);
                if later[i - 1].name != name {
                    let k = choose|k: int|
                        0 <= k < rest.len() && #[trigger] rest[k].name == later[i - 1].name;
                    assert(groups[k + 1].name == after[i].name);
                }
            }
        }
    }
}

/// The models of a provider that have an id, as choices, in their order.
pub open spec fn provider_choices(models: Seq<JsonView>, name: Seq<char>) -> Seq<ChoiceView>
    decreases models.len(),
{
    if models.len() == 0 {
        Seq::empty()
    } else {
        let before = provider_choices(models.drop_last(), name);
        let model = models.last();
        match (model.str_at("provider"@), model.str_at("id"@)) {
            (Some(provider), Some(id)) if provider == name => before.push(
                model_choice(model, provider, id),
            ),
            _ => before,
        }
    }
}

/// The choices of the group of a name, none where there is no such group.
pub open spec fn choices_in(groups: Seq<GroupView>, name: Seq<char>) -> Seq<ChoiceView>
    decreases groups.len(),
{
    if groups.len() == 0 {
        Seq::empty()
    } else if groups[0].name == name {
        groups[0].choices
    } else {
        choices_in(groups.drop_first(), name)
    }
}

/// There is no group of a name that comes before those of all groups.
proof fn lemma_no_choices(groups: Seq<GroupView>, name: Seq<char>)
    requires
        forall|i: int| 0 <= i < groups.len() ==> comes_before(name, #[trigger] groups[i].name),
    ensures
        choices_in(groups, name) == Seq::<ChoiceView>::empty(),
    decreases groups.len(),
{
    if groups.len() > 0 {
        assert(comes_before(name, groups[0].name));
        lemma_before_irreflexive(name);
        let rest = groups.drop_first();
        assert forall|i: int| 0 <= i < rest.len() implies comes_before(
            name,
            #[trigger] rest[i].name,
        ) by {
            assert(rest[i] == groups[i + 1]);
        }
        lemma_no_choices(rest, name);
    }
}

/// A choice that is entered comes last in its group, and no other group changes.
proof fn lemma_entered_choices(
    groups: Seq<GroupView>,
    name: Seq<char>,
    choice: ChoiceView,
    other: Seq<char>,
)
    requires
        groups_in_order(groups),
        forall|i: int| 0 <= i < groups.len() ==> (#[trigger] groups[i]).choices.len() > 0,
    ensures
        choices_in(entered(groups, name, choice), other) == (if other == name {
            choices_in(groups, name).push(choice)
        } else {
            choices_in(groups, other)
        }),
        forall|i: int|
            0 <= i < entered(groups, name, choice).len() ==> (#[trigger] entered(
                groups,
                name,
                choice,
            )[i]).choices.len() > 0,
    decreases groups.len(),
{
    let after = entered(groups, name, choice);
    if groups.len() == 0 || comes_before(name, groups[0].name) {
        assert(after.drop_first() =~= groups);
        assert forall|i: int| 0 <= i < groups.len() implies comes_before(
            name,
            #[trigger] groups[i].name,
        ) by {
            if i > 0 {
                assert(comes_before(groups[0].name, groups[i].name));
                lemma_before_transitive(name, groups[0].name, groups[i].name);
            }
        }
        lemma_no_choices(groups, name);
        assert(seq![choice] =~= Seq::empty().push(choice));
        assert forall|i: int| 0 <= i < after.len() implies (#[trigger] after[i]).choices.len()
            > 0 by {
            if i > 0 {
                assert(after[i] == groups[i - 1]);
            }
        }
    } else {
        let rest = groups.drop_first();
        assert forall|i: int| 0 <= i < rest.len() implies (#[trigger] rest[i]).choices.len()
            > 0 by {
            assert(rest[i] == groups[i + 1]);
        }
        if groups[0].name == name {
            assert(after.drop_first() =~= rest);
            assert forall|i: int| 0 <= i < after.len() implies (#[trigger] after[i]).choices.len()
                > 0 by {
                if i > 0 {
                    assert(after[i] == rest[i - 1]);
                }
            }
        } else {
            assert forall|i: int, j: int| 0 <= i < j < rest.len() implies comes_before(
                #[trigger] rest[i].name,
                #[trigger] rest[j].name,
            ) by {
                assert(rest[i] == groups[i + 1]);
                assert(rest[j] == groups[j + 1]);
            }
            lemma_entered_choices(rest, name, choice, other);
            let later = entered(rest, name, choice);
            assert(after.drop_first() =~= later);
            assert forall|i: int| 0 <= i < after.len() implies (#[trigger] after[i]).choices.len()
                > 0 by {
                if i == 0 {
                    assert(after[0] == groups[0]);
                } else {
                    assert(after[i] == later[i - 1]);
                }
            }
        }
    }
}

/// A group is found by its name.
proof fn lemma_choices_in(groups: Seq<GroupView>, i: int)
    requires
        groups_in_order(groups),
        0 <= i < groups.len(),
    ensures
        choices_in(groups, groups[i].name) == groups[i].choices,
    decreases groups.len(),
{
    if i > 0 {
        assert(comes_before(groups[0].name, groups[i].name));
        lemma_before_irreflexive(groups[i].name);
        let rest = groups.drop_first();
        assert forall|j: int, k: int| 0 <= j < k < rest.len() implies comes_before(
            #[trigger] rest[j].name,
            #[trigger] rest[k].name,
        ) by {
            assert(rest[j] == groups[j + 1]);
            assert(rest[k] == groups[k + 1]);
        }
        lemma_choices_in(rest, i - 1);
    }
}

proof fn lemma_model_groups(models: Seq<JsonView>)
    ensures
        groups_in_order(model_groups(models)),
        forall|i: int|
            0 <= i < model_groups(models).len() ==> (#[trigger] model_groups(
                models,
            )[i]).choices.len() > 0,
        forall|name: Seq<char>| #[trigger]
            choices_in(model_groups(models), name) == provider_choices(models, name),
    decreases models.len(),
{
    if models.len() > 0 {
        let front = models.drop_last();
        lemma_model_groups(front);
        let before = model_groups(front);
        let last = models.last();
        if let (Some(provider), Some(id)) = (last.str_at("provider"@), last.str_at("id"@)) {
            let choice = model_choice(last, provider, id);
            lemma_entered(before, provider, choice);
            lemma_entered_choices(before, provider, choice, provider);
            assert forall|name: Seq<char>| #[trigger]
                choices_in(model_groups(models), name) == provider_choices(models, name) by {
                lemma_entered_choices(before, provider, choice, name);
                assert(choices_in(before, name) == provider_choices(front, name));
            }
        } else {
            assert forall|name: Seq<char>| #[trigger]
                choices_in(model_groups(models), name) == provider_choices(models, name) by {
                assert(choices_in(before, name) == provider_choices(front, name));
            }
        }
    }
}

/// Models are grouped by provider: each provider has one group, the groups are in the order of
/// their names, a group holds exactly the models of its provider that have an id, in the order
/// in which Pi lists them, and every such model is in its provider's group.
pub proof fn models_are_grouped(models: Seq<JsonView>)
    ensures
        groups_in_order(model_groups(models)),
        forall|i: int|
            0 <= i < model_groups(models).len() ==> {
                let group = #[trigger] model_groups(models)[i];
                &&& group.choices.len() > 0
                &&& group.choices == provider_choices(models, group.name)
            },
        forall|name: Seq<char>| #[trigger]
            choices_in(model_groups(models), name) == provider_choices(models, name),
        forall|i: int|
            0 <= i < models.len() ==> ((
            (#[trigger] models[i]).str_at("provider"@),
            models[i].str_at("id"@),
            ) matches (Some(provider), Some(id)) ==> is_offered(
                model_groups(models),
                provider,
                model_choice(models[i], provider, id),
            )),
    decreases models.len(),
{
    lemma_model_groups(models);
    assert forall|i: int| 0 <= i < model_groups(models).len() implies {
        let group = #[trigger] model_groups(models)[i];
        &&& group.choices.len() > 0
        &&& group.choices == provider_choices(models, group.name)
    } by {
        lemma_choices_in(model_groups(models), i);
    }
    if models.len() > 0 {
        let front = models.drop_last();
        models_are_grouped(front);
        let before = model_groups(front);
        let after = model_groups(models);
        let last = models.last();
        if let (Some(provider), Some(id)) = (last.str_at("provider"@), last.str_at("id"@)) {
            lemma_entered(before, provider, model_choice(last, provider, id));
        }
        assert forall|i: int| 0 <= i < models.len() implies ((
        (#[trigger] models[i]).str_at("provider"@),
        models[i].str_at("id"@),
        ) matches (Some(provider), Some(id)) ==> is_offered(
            after,
            provider,
            model_choice(models[i], provider, id),
        )) by {
            if i < front.len() {
                assert(models[i] == front[i]);
                if let (Some(provider), Some(id)) = (
                    front[i].str_at("provider"@),
                    front[i].str_at("id"@),
                ) {
                    assert(is_offered(before, provider, model_choice(front[i], provider, id)));
                }
            }
        }
    }
}

} // verus!
