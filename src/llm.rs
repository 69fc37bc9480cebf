//! Requests to a chat-completion model: the prompt sent and the answer read
//! back from its JSON response.
use vstd::prelude::*;
use vstd::string::StringExecFns;

use crate::text::push_char;

verus! {

/// What the model is asked to do with the user's text.
#[derive(Clone, Copy, Debug, PartialEq, Eq, Structural)]
pub enum Actions {
    Summarize,
    Explain,
    Define,
    Translate,
    Compare,
}

/// The line that tells the model what to do.
pub open spec fn instruction_spec(a: Actions) -> &'static str {
    match a {
        Actions::Summarize => "Summarize the below text:",
        Actions::Explain => "Explain the following concept:",
        Actions::Define => "Define the following concept clearly:",
        Actions::Translate => "Translate the following text:",
        Actions::Compare => "Compare the following two concepts side by side:",
    }
}

impl Actions {
    /// The line that tells the model what to do.
    pub fn instruction(&self) -> (r: &'static str)
        ensures
            r == instruction_spec(*self),
    {
        match self {
            Actions::Summarize => "Summarize the below text:",
            Actions::Explain => "Explain the following concept:",
            Actions::Define => "Define the following concept clearly:",
            Actions::Translate => "Translate the following text:",
            Actions::Compare => "Compare the following two concepts side by side:",
        }
    }
}

/// The user message sent for `text`: the instruction, a newline, the text.
pub fn compose_prompt(text: &str, action: Actions) -> (r: String)
    ensures
        r@ == instruction_spec(action)@.push('\n') + text@,
{
    let mut s = action.instruction().to_owned();
    push_char(&mut s, '\n');
    s.append(text);
    s
}

/// The text handed to a translation request.
pub fn translate_request(language: &str, text: &str) -> (r: String)
    ensures
        r@ == "Translate text in "@ + language@ + "\nText: "@ + text@ + "\n"@,
{
    let mut s = "Translate text in ".to_owned();
    s.append(language);
    s.append("\nText: ");
    s.append(text);
    s.append("\n");
    s
}

/// The text handed to a comparison request.
pub fn compare_request(first: &str, second: &str) -> (r: String)
    ensures
        r@ == "First concept "@ + first@ + "\nSecond concept: "@ + second@ + "\n"@,
{
    let mut s = "First concept ".to_owned();
    s.append(first);
    s.append("\nSecond concept: ");
    s.append(second);
    s.append("\n");
    s
}

/// A JSON document. Numbers are kept as their text.
#[derive(Debug)]
pub enum JsonValue {
    Null,
    Bool(bool),
    Number(String),
    Str(String),
    Array(Vec<JsonValue>),
    Object(Vec<(String, JsonValue)>),
}

/// The answer read back from the model.
#[derive(Clone, Debug)]
pub struct ModelAnswer {
    pub id: String,
    pub content: String,
}

/// Why no answer could be read from a response.
#[derive(Clone, Copy, Debug, PartialEq, Eq, Structural)]
pub enum ExtractError {
    MissingField,
    WrongType,
}

/// The value of the first member of `members` named `key`.
pub open spec fn member(members: Seq<(String, JsonValue)>, key: Seq<char>) -> Option<JsonValue>
    decreases members.len(),
{
    if members.len() == 0 {
        None
    } else if members[0].0@ == key {
        Some(members[0].1)
    } else {
        member(members.drop_first(), key)
    }
}

/// The member `key` of `v`, when `v` is an object that has it.
pub open spec fn field(v: JsonValue, key: Seq<char>) -> Option<JsonValue> {
    match v {
        JsonValue::Object(m) => member(m@, key),
        _ => None,
    }
}

/// The first element of `v`, when `v` is a non-empty array.
pub open spec fn first_element(v: JsonValue) -> Option<JsonValue> {
    match v {
        JsonValue::Array(a) => if a@.len() > 0 {
            Some(a@[0])
        } else {
            None
        },
        _ => None,
    }
}

/// The text of `v`, when it is a string.
pub open spec fn text_of(v: Option<JsonValue>) -> Option<Seq<char>> {
    match v {
        Some(JsonValue::Str(s)) => Some(s@),
        _ => None,
    }
}

/// `field(v, key)` when `v` is present.
pub open spec fn field_of(v: Option<JsonValue>, key: Seq<char>) -> Option<JsonValue> {
    match v {
        Some(x) => field(x, key),
        None => None,
    }
}

/// The response's `id`, when it is a string.
pub open spec fn response_id(v: JsonValue) -> Option<Seq<char>> {
    text_of(field(v, "id"@))
}

/// The response's `choices[0].message.content`, when it is a string.
pub open spec fn response_content(v: JsonValue) -> Option<Seq<char>> {
    let first = match field(v, "choices"@) {
        Some(c) => first_element(c),
        None => None,
    };
    text_of(field_of(field_of(first, "message"@), "content"@))
}

fn get_field<'a>(v: &'a JsonValue, key: &str) -> (r: Option<&'a JsonValue>)
    ensures
        r is Some <==> field(*v, key@) is Some,
        r matches Some(x) ==> field(*v, key@) == Some(*x),
{
    match v {
        JsonValue::Object(m) => {
            let wanted = key.to_owned();
            let mut i: usize = 0;
            assert(m@.subrange(0, m@.len() as int) =~= m@);
            assert(field(*v, key@) == member(m@, key@));
            while i < m.len()
                invariant
                    i <= m@.len(),
                    wanted@ == key@,
                    field(*v, key@) == member(m@, key@),
                    member(m@, key@) == member(m@.subrange(i as int, m@.len() as int), key@),
                decreases m@.len() - i,
            {
                assert(m@.subrange(i as int, m@.len() as int).drop_first() =~= m@.subrange(
                    i as int + 1,
                    m@.len() as int,
                ));
                if m[i].0.eq(&wanted) {
                    assert(m@.subrange(i as int, m@.len() as int)[0] == m@[i as int]);
                    return Some(&m[i].1);
                }
                i = i + 1;
            }
            None
        },
        _ => None,
    }
}

fn get_first(v: &JsonValue) -> (r: Option<&JsonValue>)
    ensures
        r is Some <==> first_element(*v) is Some,
        r matches Some(x) ==> first_element(*v) == Some(*x),
{
    match v {
        JsonValue::Array(a) => if a.len() > 0 {
            Some(&a[0])
        } else {
            None
        },
        _ => None,
    }
}

fn get_text(v: Option<&JsonValue>) -> (r: Option<String>)
    ensures
        r is Some <==> text_of(
            match v {
                Some(x) => Some(*x),
                None => None,
            },
        ) is Some,
        r matches Some(s) ==> text_of(
            match v {
                Some(x) => Some(*x),
                None => None,
            },
        ) == Some(s@),
{
    match v {
        Some(JsonValue::Str(s)) => Some(s.clone()),
        _ => None,
    }
}

/// Reads the answer id and text out of a chat-completion response: `id` and
/// `choices[0].message.content`, both strings. Any of them missing, or not a
/// string, gives `MissingField`.
pub fn extract_answer(v: &JsonValue) -> (r: Result<ModelAnswer, ExtractError>)
    ensures
        response_id(*v) is Some && response_content(*v) is Some ==> (r matches Ok(a) && a.id@
            == response_id(*v)->Some_0 && a.content@ == response_content(*v)->Some_0),
        !(response_id(*v) is Some && response_content(*v) is Some) ==> r == Err::<
            ModelAnswer,
            ExtractError,
        >(ExtractError::MissingField),
{
    let id = match get_text(get_field(v, "id")) {
        Some(s) => s,
        None => {
            return Err(ExtractError::MissingField);
        },
    };
    let first = match get_field(v, "choices") {
        Some(c) => get_first(c),
        None => None,
    };
    let message = match first {
        Some(f) => get_field(f, "message"),
        None => None,
    };
    let content_value = match message {
        Some(m) => get_field(m, "content"),
        None => None,
    };
    let content = match get_text(content_value) {
        Some(s) => s,
        None => {
            return Err(ExtractError::MissingField);
        },
    };
    Ok(ModelAnswer { id, content })
}

} // verus!
