//! Laws on what extensions ask of the user, and what they get for an answer.

use vstd::prelude::*;

use crate::dialog::{
    asked, cancelled_response, choice_id, is_question, offered_choice_comes_back, only_texts,
    place_of, response_of, waits, wish_of, WishView,
};
use crate::json::{member_is_counted_once, member_reads_back, JsonView};
use crate::text::{decimal, decimal_is_injective};
use crate::words::lemma_dialog_words;

verus! {

/// The text, empty where there is none.
pub open spec fn words_at(event: JsonView, key: Seq<char>) -> Seq<char> {
    match event.str_at(key) {
        Some(text) => text,
        None => Seq::empty(),
    }
}

/// What an extension asks comes in an event of a type of its own.
pub proof fn questions_have_their_own_type(event: JsonView)
    ensures
        is_question(event) <==> event.get("type"@) == Some(
            JsonView::String("extension_ui_request"@),
        ),
{
}

/// The texts among the options of a selection, in their order.
pub open spec fn listed_texts(event: JsonView) -> Seq<Seq<char>> {
    event.items_at("options"@).filter(|value: JsonView| value is String).map_values(
        |value: JsonView| value->String_0,
    )
}

/// The texts among values are those that are strings, in their order.
proof fn lemma_only_texts(values: Seq<JsonView>)
    ensures
        only_texts(values) == values.filter(|value: JsonView| value is String).map_values(
            |value: JsonView| value->String_0,
        ),
    decreases values.len(),
{
    reveal(Seq::filter);
    let texts = values.filter(|value: JsonView| value is String).map_values(
        |value: JsonView| value->String_0,
    );
    if values.len() > 0 {
        let front = values.drop_last();
        lemma_only_texts(front);
        assert(only_texts(values) =~= texts);
    } else {
        assert(texts =~= Seq::empty());
    }
}

/// An extension can ask the user to select one of some texts or to confirm something. It can tell
/// the user something without waiting for an answer. It waits for an answer to anything else.
pub proof fn wishes_are_understood(event: JsonView)
    ensures
        ({
            let method = event.str_at("method"@);
            &&& method == Some("select"@) ==> wish_of(event) == (WishView::Select {
                title: words_at(event, "title"@),
                choices: listed_texts(event),
            })
            &&& method == Some("confirm"@) ==> wish_of(event) == (WishView::Confirm {
                title: match event.str_at("message"@) {
                    Some(message) => words_at(event, "title"@) + ": "@ + message,
                    None => words_at(event, "title"@),
                },
            })
            &&& !waits(event) <==> method == Some("notify"@) || method == Some("setStatus"@)
                || method == Some("setWidget"@) || method == Some("setTitle"@) || method == Some(
                "set_editor_text"@,
            )
            &&& method != Some("select"@) && method != Some("confirm"@) ==> wish_of(event) is Silent
                || wish_of(event) is Other
        }),
{
    lemma_dialog_words();
    lemma_only_texts(event.items_at("options"@));
}

/// Whether an option that the client is offered is the choice at a place.
pub open spec fn is_offer(option: JsonView, place: nat, name: Seq<char>, kind: Seq<char>) -> bool {
    &&& option.size() == 3
    &&& option.str_at("optionId"@) == Some("choice-"@ + decimal(place))
    &&& option.str_at("name"@) == Some(name)
    &&& option.str_at("kind"@) == Some(kind)
}

/// Whether the client is asked for a permission: which session it is for, what is asked, and by
/// which question.
pub open spec fn is_permission(
    params: JsonView,
    session: Seq<char>,
    question: JsonView,
    title: Seq<char>,
) -> bool {
    &&& params.size() == 3
    &&& params.str_at("sessionId"@) == Some(session)
    &&& params.get("toolCall"@) matches Some(call) && {
        &&& call.size() == 2
        &&& call.str_at("toolCallId"@) == Some("extension-ui-"@ + words_at(question, "id"@))
        &&& call.str_at("title"@) == Some(title)
    }
    &&& params.get("options"@) matches Some(JsonView::Array(_))
}

/// A selection is put to the client as a permission with one option for each choice, in order. A
/// selection of nothing is not put to it.
pub proof fn selections_are_put_to_the_client(session: Seq<char>, question: JsonView)
    requires
        question.str_at("method"@) == Some("select"@),
    ensures
        listed_texts(question).len() == 0 ==> asked(session, question) is None,
        listed_texts(question).len() > 0 ==> (asked(session, question) matches Some(params) && {
            let options = params.items_at("options"@);
            &&& is_permission(params, session, question, words_at(question, "title"@))
            &&& options.len() == listed_texts(question).len()
            &&& forall|i: int|
                0 <= i < options.len() ==> is_offer(
                    #[trigger] options[i],
                    i as nat,
                    listed_texts(question)[i],
                    "allow_once"@,
                )
        }),
{
    broadcast use {member_is_counted_once, member_reads_back};

    lemma_dialog_words();
    wishes_are_understood(question);
}

/// A confirmation is put to the client as a permission that can be given or refused once.
pub proof fn confirmations_are_put_to_the_client(session: Seq<char>, question: JsonView)
    requires
        question.str_at("method"@) == Some("confirm"@),
    ensures
        asked(session, question) matches Some(params) && {
            let options = params.items_at("options"@);
            &&& is_permission(
                params,
                session,
                question,
                match question.str_at("message"@) {
                    Some(message) => words_at(question, "title"@) + ": "@ + message,
                    None => words_at(question, "title"@),
                },
            )
            &&& options.len() == 2
            &&& is_offer(options[0], 0, "Yes"@, "allow_once"@)
            &&& is_offer(options[1], 1, "No"@, "reject_once"@)
        },
{
    broadcast use {member_is_counted_once, member_reads_back};

    lemma_dialog_words();
    wishes_are_understood(question);
}

/// Nothing else is put to the client.
pub proof fn other_wishes_are_not_put_to_the_client(session: Seq<char>, question: JsonView)
    requires
        question.str_at("method"@) != Some("select"@),
        question.str_at("method"@) != Some("confirm"@),
    ensures
        asked(session, question) is None,
{
    wishes_are_understood(question);
}

/// Whether an answer to an extension is one to its question, with a value under a key.
pub open spec fn is_answer(
    answer: JsonView,
    question: JsonView,
    key: Seq<char>,
    value: JsonView,
) -> bool {
    &&& answer.size() == 3
    &&& answer.str_at("type"@) == Some("extension_ui_response"@)
    &&& answer.get("id"@) == Some(
        match question.get("id"@) {
            Some(id) => id,
            None => JsonView::Null,
        },
    )
    &&& answer.get(key) == Some(value)
}

/// Whether the client says that the option at a place was selected.
pub open spec fn selects(answer: Result<JsonView, Seq<char>>, place: nat) -> bool {
    answer matches Ok(value) && {
        &&& value.str_in("outcome"@, "outcome"@) == Some("selected"@)
        &&& value.str_in("outcome"@, "optionId"@) == Some("choice-"@ + decimal(place))
    }
}

/// No two options have the same id.
proof fn lemma_ids_differ(a: nat, b: nat)
    requires
        "choice-"@ + decimal(a) == "choice-"@ + decimal(b),
    ensures
        a == b,
{
    let n = "choice-"@.len() as int;
    assert(("choice-"@ + decimal(a)).skip(n) =~= decimal(a));
    assert(("choice-"@ + decimal(b)).skip(n) =~= decimal(b));
    decimal_is_injective(a, b);
}

/// An id is at a place only if it is the id of that place.
proof fn lemma_place_of_id(id: Seq<char>, count: nat)
    ensures
        place_of(id, count) matches Some(place) ==> place < count && id == choice_id(place),
        place_of(id, count) is None ==> forall|place: nat|
            place < count ==> #[trigger] choice_id(place) != id,
    decreases count,
{
    if count > 0 {
        lemma_place_of_id(id, (count - 1) as nat);
    }
}

/// The extension gets the text that was selected, whichever it was.
pub proof fn selected_text_is_answered(
    question: JsonView,
    answer: Result<JsonView, Seq<char>>,
    place: nat,
)
    requires
        question.str_at("method"@) == Some("select"@),
        place < listed_texts(question).len(),
        selects(answer, place),
    ensures
        is_answer(
            response_of(question, answer),
            question,
            "value"@,
            JsonView::String(listed_texts(question)[place as int]),
        ),
{
    broadcast use {member_is_counted_once, member_reads_back};

    lemma_dialog_words();
    wishes_are_understood(question);
    offered_choice_comes_back(
        question,
        words_at(question, "title"@),
        listed_texts(question),
        place,
        answer->Ok_0,
    );
}

/// The extension learns whether the user said yes or no.
pub proof fn confirmation_is_answered(question: JsonView, answer: Result<JsonView, Seq<char>>)
    requires
        question.str_at("method"@) == Some("confirm"@),
    ensures
        selects(answer, 0) ==> is_answer(
            response_of(question, answer),
            question,
            "confirmed"@,
            JsonView::Bool(true),
        ),
        selects(answer, 1) ==> is_answer(
            response_of(question, answer),
            question,
            "confirmed"@,
            JsonView::Bool(false),
        ),
{
    broadcast use {member_is_counted_once, member_reads_back};

    lemma_dialog_words();
    wishes_are_understood(question);
    if let Ok(value) = answer {
        if let Some(id) = value.str_in("outcome"@, "optionId"@) {
            lemma_place_of_id(id, 2);
            if selects(answer, 0) || selects(answer, 1) {
                let said: nat = if selects(answer, 0) {
                    0
                } else {
                    1
                };
                assert(choice_id(said) == id);
                lemma_ids_differ(said, place_of(id, 2)->0);
                if selects(answer, 0) && selects(answer, 1) {
                    lemma_ids_differ(0, 1);
                }
            }
        }
    }
}

/// Where the client selects nothing that was offered, the extension learns that its question was
/// cancelled, and so it does where it wanted something else.
pub proof fn other_answers_cancel(question: JsonView, answer: Result<JsonView, Seq<char>>)
    requires
        question.str_at("method"@) == Some("select"@) ==> forall|place: nat|
            place < listed_texts(question).len() ==> !(#[trigger] selects(answer, place)),
        question.str_at("method"@) == Some("confirm"@) ==> !selects(answer, 0) && !selects(
            answer,
            1,
        ),
    ensures
        response_of(question, answer) == cancelled_response(question),
        is_answer(cancelled_response(question), question, "cancelled"@, JsonView::Bool(true)),
{
    broadcast use {member_is_counted_once, member_reads_back};

    lemma_dialog_words();
    wishes_are_understood(question);
    if let Ok(value) = answer {
        if let Some(id) = value.str_in("outcome"@, "optionId"@) {
            let count: nat = if question.str_at("method"@) == Some("select"@) {
                listed_texts(question).len()
            } else {
                2
            };
            lemma_place_of_id(id, count);
            if value.str_in("outcome"@, "outcome"@) == Some("selected"@) && (question.str_at(
                "method"@,
            ) == Some("select"@) || question.str_at("method"@) == Some("confirm"@)) {
                if let Some(place) = place_of(id, count) {
                    assert(selects(answer, place));
                }
            }
        }
    }
}

} // verus!
