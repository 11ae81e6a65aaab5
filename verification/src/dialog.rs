//! Questions that Pi's extensions ask the user.

use vstd::prelude::*;

use crate::acp::value_or_text;
use crate::json::{items_view, lemma_items_view, Json, JsonView};
use crate::options::or_empty;
use crate::text::{decimal, decimal_is_injective, decimal_text, same_text, texts};

verus! {

/// What an extension wants of the user.
pub enum Wish {
    /// One of several texts.
    Select { title: String, choices: Vec<String> },
    /// Yes or no.
    Confirm { title: String },
    /// Nothing that has to be answered.
    Silent,
    /// Something that the user cannot be asked for.
    Other,
}

/// What a [`Wish`] is.
pub enum WishView {
    Select { title: Seq<char>, choices: Seq<Seq<char>> },
    Confirm { title: Seq<char> },
    Silent,
    Other,
}

impl View for Wish {
    type V = WishView;

    open spec fn view(&self) -> WishView {
        match self {
            Wish::Select { title, choices } => WishView::Select {
                title: title@,
                choices: texts(choices@),
            },
            Wish::Confirm { title } => WishView::Confirm { title: title@ },
            Wish::Silent => WishView::Silent,
            Wish::Other => WishView::Other,
        }
    }
}

/// The texts among values.
pub open spec fn only_texts(values: Seq<JsonView>) -> Seq<Seq<char>>
    decreases values.len(),
{
    if values.len() == 0 {
        Seq::empty()
    } else {
        let before = only_texts(values.drop_last());
        match values.last().as_str() {
            Some(text) => before.push(text),
            None => before,
        }
    }
}

/// Whether a method tells the user something and waits for no answer.
pub open spec fn is_silent(method: Seq<char>) -> bool {
    method == "notify"@ || method == "setStatus"@ || method == "setWidget"@ || method
        == "setTitle"@ || method == "set_editor_text"@
}

/// The question of a confirmation: its title, and its message where it has one.
pub open spec fn question_of(event: JsonView) -> Seq<char> {
    let title = or_empty(event.str_at("title"@));
    match event.str_at("message"@) {
        Some(message) => title + ": "@ + message,
        None => title,
    }
}

/// Whether an event is a question of an extension's.
pub open spec fn is_question(event: JsonView) -> bool {
    event.str_at("type"@) == Some("extension_ui_request"@)
}

/// What an extension wants of the user.
pub open spec fn wish_of(event: JsonView) -> WishView {
    let method = or_empty(event.str_at("method"@));
    if method == "select"@ {
        WishView::Select {
            title: or_empty(event.str_at("title"@)),
            choices: only_texts(event.items_at("options"@)),
        }
    } else if method == "confirm"@ {
        WishView::Confirm { title: question_of(event) }
    } else if is_silent(method) {
        WishView::Silent
    } else {
        WishView::Other
    }
}

/// The string, empty for `None`.
fn text_or_empty(s: Option<&str>) -> (r: &str)
    ensures
        r@ == or_empty(crate::text::opt_text(s)),
{
    proof {
        reveal_strlit("");
        assert(""@ =~= Seq::<char>::empty());
    }
    match s {
        Some(s) => s,
        None => "",
    }
}

/// The texts among values.
fn pick_texts(values: &Vec<Json>) -> (r: Vec<String>)
    ensures
        texts(r@) == only_texts(items_view(values@)),
{
    let ghost all = items_view(values@);
    proof {
        lemma_items_view(values@);
    }
    let mut list: Vec<String> = Vec::new();
    let mut i: usize = 0;
    assert(texts(list@) =~= only_texts(all.take(0)));
    while i < values.len()
        invariant
            i <= values.len(),
            all.len() == values.len(),
            forall|k: int| 0 <= k < all.len() ==> #[trigger] all[k] == values[k]@,
            texts(list@) == only_texts(all.take(i as int)),
        decreases values.len() - i,
    {
        proof {
            assert(all.take(i + 1).drop_last() =~= all.take(i as int));
            assert(all.take(i + 1).last() == values[i as int]@);
        }
        let ghost before = list@;
        if let Some(text) = values[i].as_str() {
            list.push(text.to_owned());
            assert(texts(list@) =~= texts(before).push(text@));
        }
        i = i + 1;
    }
    assert(all.take(i as int) =~= all);
    list
}

/// Whether an event is a question of an extension's.
pub fn asks_user(event: &Json) -> (r: bool)
    ensures
        r == is_question(event@),
{
    event.has_text("type", "extension_ui_request")
}

/// What an extension wants of the user.
pub fn read_wish(event: &Json) -> (r: Wish)
    ensures
        r@ == wish_of(event@),
{
    let method: &str = text_or_empty(event.str_at("method"));
    let title: &str = text_or_empty(event.str_at("title"));
    if same_text(method, "select") {
        let choices: Vec<String> = match event.items_at("options") {
            Some(values) => pick_texts(values),
            None => Vec::new(),
        };
        assert(texts(choices@) =~= only_texts(event@.items_at("options"@)));
        Wish::Select { title: title.to_owned(), choices }
    } else if same_text(method, "confirm") {
        let question: String = match event.str_at("message") {
            Some(message) => title.to_owned().concat(": ").concat(message),
            None => title.to_owned(),
        };
        Wish::Confirm { title: question }
    } else if same_text(method, "notify") || same_text(method, "setStatus") || same_text(
        method,
        "setWidget",
    ) || same_text(method, "setTitle") || same_text(method, "set_editor_text") {
        Wish::Silent
    } else {
        Wish::Other
    }
}

/// What identifies the choice at a place.
pub open spec fn choice_id(place: nat) -> Seq<char> {
    "choice-"@ + decimal(place)
}

/// What identifies the choice at a place.
fn make_choice_id(place: usize) -> (r: String)
    ensures
        r@ == choice_id(place as nat),
{
    "choice-".to_owned().concat(decimal_text(place as u64).as_str())
}

/// A choice as the client is offered it.
pub open spec fn offer(place: nat, name: Seq<char>, kind: Seq<char>) -> JsonView {
    JsonView::object().with("optionId"@, JsonView::String(choice_id(place))).with(
        "name"@,
        JsonView::String(name),
    ).with("kind"@, JsonView::String(kind))
}

/// A choice as the client is offered it.
fn make_offer(place: usize, name: &str, kind: &str) -> (r: Json)
    ensures
        r@ == offer(place as nat, name@, kind@),
{
    Json::object().with("optionId", Json::text(make_choice_id(place).as_str())).with(
        "name",
        Json::text(name),
    ).with("kind", Json::text(kind))
}

/// The choices as the client is offered them.
pub open spec fn offers(choices: Seq<Seq<char>>) -> Seq<JsonView> {
    Seq::new(choices.len(), |i: int| offer(i as nat, choices[i], "allow_once"@))
}

/// What the client is asked: a permission, with the choices as its options.
pub open spec fn permission(
    session: Seq<char>,
    question: JsonView,
    title: Seq<char>,
    options: Seq<JsonView>,
) -> JsonView {
    JsonView::object().with("sessionId"@, JsonView::String(session)).with(
        "toolCall"@,
        JsonView::object().with(
            "toolCallId"@,
            JsonView::String("extension-ui-"@ + or_empty(question.str_at("id"@))),
        ).with("title"@, JsonView::String(title)),
    ).with("options"@, JsonView::Array(options))
}

/// What the client is asked, where it can be asked for what the extension wants.
pub open spec fn asked(session: Seq<char>, question: JsonView) -> Option<JsonView> {
    match wish_of(question) {
        WishView::Select { title, choices } => if choices.len() == 0 {
            None
        } else {
            Some(permission(session, question, title, offers(choices)))
        },
        WishView::Confirm { title } => Some(
            permission(
                session,
                question,
                title,
                seq![offer(0, "Yes"@, "allow_once"@), offer(1, "No"@, "reject_once"@)],
            ),
        ),
        _ => None,
    }
}

/// What the client is asked.
fn make_permission(session: &str, question: &Json, title: &str, options: Vec<Json>) -> (r: Json)
    ensures
        r@ == permission(session@, question@, title@, items_view(options@)),
{
    let call: String = "extension-ui-".to_owned().concat(text_or_empty(question.str_at("id")));
    Json::object().with("sessionId", Json::text(session)).with(
        "toolCall",
        Json::object().with("toolCallId", Json::text(call.as_str())).with(
            "title",
            Json::text(title),
        ),
    ).with("options", Json::Array(options))
}

/// What the client is asked, where it can be asked for what the extension wants.
pub fn permission_request(session: &str, question: &Json) -> (r: Option<Json>)
    ensures
        asked(session@, question@) == (match r {
            Some(params) => Some(params@),
            None => None::<JsonView>,
        }),
{
    match read_wish(question) {
        Wish::Select { title, choices } => {
            if choices.len() == 0 {
                return None;
            }
            let ghost wanted = offers(texts(choices@));
            let mut options: Vec<Json> = Vec::new();
            let mut i: usize = 0;
            while i < choices.len()
                invariant
                    i <= choices.len(),
                    wanted == offers(texts(choices@)),
                    items_view(options@) == wanted.take(i as int),
                decreases choices.len() - i,
            {
                let ghost before = options@;
                options.push(make_offer(i, choices[i].as_str(), "allow_once"));
                proof {
                    assert(options@.drop_last() =~= before);
                    assert(texts(choices@)[i as int] == choices@[i as int]@);
                    assert(wanted.take(i + 1) =~= wanted.take(i as int).push(wanted[i as int]));
                }
                i = i + 1;
            }
            assert(wanted.take(i as int) =~= wanted);
            Some(make_permission(session, question, title.as_str(), options))
        },
        Wish::Confirm { title } => {
            let mut options: Vec<Json> = Vec::new();
            options.push(make_offer(0, "Yes", "allow_once"));
            options.push(make_offer(1, "No", "reject_once"));
            proof {
                lemma_items_view(options@);
                assert(items_view(options@) =~= seq![
                    offer(0, "Yes"@, "allow_once"@),
                    offer(1, "No"@, "reject_once"@),
                ]);
            }
            Some(make_permission(session, question, title.as_str(), options))
        },
        _ => None,
    }
}

/// The place below `count` whose choice has an id.
pub open spec fn place_of(id: Seq<char>, count: nat) -> Option<nat>
    decreases count,
{
    if count == 0 {
        None
    } else {
        match place_of(id, (count - 1) as nat) {
            Some(place) => Some(place),
            None => if id == choice_id((count - 1) as nat) {
                Some((count - 1) as nat)
            } else {
                None
            },
        }
    }
}

/// The id of the choice that the user made.
pub open spec fn selected(answer: Result<JsonView, Seq<char>>) -> Option<Seq<char>> {
    match answer {
        Ok(value) => if value.str_in("outcome"@, "outcome"@) == Some("selected"@) {
            value.str_in("outcome"@, "optionId"@)
        } else {
            None
        },
        Err(_) => None,
    }
}

/// The place of the choice that the user made among `count`.
pub open spec fn selected_place(answer: Result<JsonView, Seq<char>>, count: nat) -> Option<nat> {
    match selected(answer) {
        Some(id) => place_of(id, count),
        None => None,
    }
}

/// The start of every answer to an extension.
pub open spec fn response(question: JsonView) -> JsonView {
    JsonView::object().with("type"@, JsonView::String("extension_ui_response"@)).with(
        "id"@,
        question.get_or_null("id"@),
    )
}

/// The answer to an extension that gets none from the user.
pub open spec fn cancelled_response(question: JsonView) -> JsonView {
    response(question).with("cancelled"@, JsonView::Bool(true))
}

/// The answer to an extension that gets none from the user.
pub fn make_cancelled(question: &Json) -> (r: Json)
    ensures
        r@ == cancelled_response(question@),
{
    Json::object().with("type", Json::text("extension_ui_response")).with(
        "id",
        question.get_or_null("id"),
    ).with("cancelled", Json::Bool(true))
}

/// The answer to an extension: what the user chose, and that nothing was chosen where the client
/// gave no choice that was offered.
pub open spec fn response_of(question: JsonView, answer: Result<JsonView, Seq<char>>) -> JsonView {
    match wish_of(question) {
        WishView::Select { title: _, choices } => match selected_place(answer, choices.len()) {
            Some(place) => response(question).with(
                "value"@,
                JsonView::String(choices[place as int]),
            ),
            None => cancelled_response(question),
        },
        WishView::Confirm { title: _ } => match selected_place(answer, 2) {
            Some(place) => response(question).with("confirmed"@, JsonView::Bool(place == 0)),
            None => cancelled_response(question),
        },
        _ => cancelled_response(question),
    }
}

/// Whether an extension waits for an answer.
pub open spec fn waits(question: JsonView) -> bool {
    !(wish_of(question) is Silent)
}

/// The place of the choice that the user made among `count`.
fn find_place(answer: &Result<Json, String>, count: usize) -> (r: Option<usize>)
    ensures
        selected_place(value_or_text(*answer), count as nat) == (match r {
            Some(place) => Some(place as nat),
            None => None::<nat>,
        }),
        r matches Some(place) ==> place < count,
{
    let value: &Json = match answer {
        Ok(value) => value,
        Err(_) => return None,
    };
    match value.str_in("outcome", "outcome") {
        Some(outcome) => if !same_text(outcome, "selected") {
            return None;
        },
        None => return None,
    }
    let id: &str = match value.str_in("outcome", "optionId") {
        Some(id) => id,
        None => return None,
    };
    let mut i: usize = 0;
    while i < count
        invariant
            i <= count,
            place_of(id@, i as nat) is None,
            selected(value_or_text(*answer)) == Some(id@),
        decreases count - i,
    {
        if same_text(id, make_choice_id(i).as_str()) {
            proof {
                lemma_place_stays(id@, (i + 1) as nat, count as nat);
            }
            return Some(i);
        }
        i = i + 1;
    }
    None
}

/// A place that is found among some is found among more.
proof fn lemma_place_stays(id: Seq<char>, few: nat, many: nat)
    requires
        few <= many,
        place_of(id, few) is Some,
    ensures
        place_of(id, many) == place_of(id, few),
    decreases many,
{
    if few < many {
        lemma_place_stays(id, few, (many - 1) as nat);
    }
}

/// Whether an extension waits for an answer.
pub fn needs_response(question: &Json) -> (r: bool)
    ensures
        r == waits(question@),
{
    match read_wish(question) {
        Wish::Silent => false,
        _ => true,
    }
}

/// The answer to an extension.
pub fn respond(question: &Json, answer: &Result<Json, String>) -> (r: Json)
    ensures
        r@ == response_of(question@, value_or_text(*answer)),
{
    let start = Json::object().with("type", Json::text("extension_ui_response")).with(
        "id",
        question.get_or_null("id"),
    );
    match read_wish(question) {
        Wish::Select { title: _, choices } => match find_place(answer, choices.len()) {
            Some(place) => {
                assert(texts(choices@)[place as int] == choices@[place as int]@);
                start.with("value", Json::text(choices[place].as_str()))
            },
            None => start.with("cancelled", Json::Bool(true)),
        },
        Wish::Confirm { title: _ } => match find_place(answer, 2) {
            Some(place) => start.with("confirmed", Json::Bool(place == 0)),
            None => start.with("cancelled", Json::Bool(true)),
        },
        _ => start.with("cancelled", Json::Bool(true)),
    }
}

/// The id of an offered choice leads to its place.
proof fn lemma_place_of(place: nat, count: nat)
    requires
        place < count,
    ensures
        place_of(choice_id(place), count) == Some(place),
    decreases count,
{
    if place + 1 < count {
        lemma_place_of(place, (count - 1) as nat);
    } else {
        lemma_no_place(place, place);
    }
}

/// The id of a choice belongs to no earlier place.
proof fn lemma_no_place(place: nat, count: nat)
    requires
        count <= place,
    ensures
        place_of(choice_id(place), count) is None,
    decreases count,
{
    if count > 0 {
        lemma_no_place(place, (count - 1) as nat);
        let other = (count - 1) as nat;
        if choice_id(place) == choice_id(other) {
            let n = "choice-"@.len() as int;
            assert(choice_id(place).skip(n) =~= decimal(place));
            assert(choice_id(other).skip(n) =~= decimal(other));
            decimal_is_injective(place, other);
        }
    }
}

/// Where the user selects a choice that was offered, the extension gets that very choice.
pub proof fn offered_choice_comes_back(
    question: JsonView,
    title: Seq<char>,
    choices: Seq<Seq<char>>,
    place: nat,
    answer: JsonView,
)
    requires
        wish_of(question) == (WishView::Select { title, choices }),
        place < choices.len(),
        answer.str_in("outcome"@, "outcome"@) == Some("selected"@),
        answer.str_in("outcome"@, "optionId"@) == Some(choice_id(place)),
    ensures
        response_of(question, Ok(answer)) == response(question).with(
            "value"@,
            JsonView::String(choices[place as int]),
        ),
{
    lemma_place_of(place, choices.len());
}

/// Where the client fails, or gives no choice, or gives one that was not offered, an extension
/// that waits is told so: it never waits for ever.
pub proof fn unanswered_question_is_cancelled(
    question: JsonView,
    answer: Result<JsonView, Seq<char>>,
)
    requires
        match wish_of(question) {
            WishView::Select { title: _, choices } => selected_place(answer, choices.len()) is None,
            WishView::Confirm { title: _ } => selected_place(answer, 2) is None,
            _ => true,
        },
    ensures
        response_of(question, answer) == cancelled_response(question),
{
}

} // verus!
