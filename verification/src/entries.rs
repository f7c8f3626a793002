//! Reading what Redis answers to the operations on single entries, and on all entries of a scope.

use crate::error::outcome;
use crate::error::plain_outcome;
use crate::error::StateError;
use crate::json::is_null;
use crate::json::json_op_errors;
use crate::json::json_value;
use crate::json::null;
use crate::json::null_value;
use crate::json::parse_op_errors;
use crate::json::parse_optional_value;
use crate::json::parse_value;
use crate::json::read_view;
use crate::page::all_read;
use crate::page::decode_list_page_reply;
use crate::page::lemma_first_error_stays;
use crate::page::page_outcome;
use crate::page::texts;
use crate::structs::option_view;
use crate::structs::PageView;
use crate::structs::StateListPageResult;
use crate::structs::StreamSetResult;
use crate::structs::StreamUpdateResult;
use crate::structs::UpdateView;
use crate::text::decimal;
use crate::text::same;
use crate::text::to_decimal;
use iii_helpers::stream::UpdateOpError;
use serde_json::Value;
use vstd::prelude::*;

verus! {

/// An answer that holds a text, if any, over its view.
pub open spec fn text_reply(reply: Result<Option<String>, String>) -> Result<
    Option<Seq<char>>,
    Seq<char>,
> {
    match reply {
        Ok(text) => Ok(option_view(text)),
        Err(e) => Err(e@),
    }
}

/// An answer that holds texts, over its view.
pub open spec fn texts_reply(reply: Result<Vec<String>, String>) -> Result<
    Seq<Seq<char>>,
    Seq<char>,
> {
    match reply {
        Ok(values) => Ok(texts(values@)),
        Err(e) => Err(e@),
    }
}

/// What storing a value reports, given what was made of the text that was there before. What
/// cannot be read counts as `null`.
pub open spec fn set_report(before: Option<Result<Value, Seq<char>>>, value: Value) -> StreamSetResult {
    StreamSetResult {
        old_value: match before {
            None => None,
            Some(Ok(v)) => Some(v),
            Some(Err(_)) => Some(null()),
        },
        new_value: value,
    }
}

/// What storing a value reports, given the answer of Redis.
pub open spec fn set_outcome(
    reply: Result<Option<Seq<char>>, Seq<char>>,
    value: Value,
) -> Result<StreamSetResult, Seq<char>> {
    match reply {
        Ok(None) => Ok(set_report(None, value)),
        Ok(Some(text)) => Ok(set_report(Some(json_value(text)), value)),
        Err(e) => Err("Failed to atomically set value in Redis: "@ + e),
    }
}

/// What storing a value reports, given what was made of the text that was there before.
pub fn set_result(before: Option<Result<Value, String>>, value: &Value) -> (r: StreamSetResult)
    ensures
        r == set_report(
            match before {
                None => None,
                Some(read) => Some(read_view(read)),
            },
            *value,
        ),
        before matches Some(Err(_)) ==> (r.old_value matches Some(v) && is_null(v)),
{
    let old_value = match before {
        None => None,
        Some(Ok(v)) => Some(v),
        Some(Err(_)) => Some(null_value()),
    };
    StreamSetResult { old_value, new_value: value.clone() }
}

/// Reads the answer to storing a value: the text that was there before, if any.
pub fn set_reply(reply: Result<Option<String>, String>, value: &Value) -> (r: Result<
    StreamSetResult,
    StateError,
>)
    ensures
        plain_outcome(r) == set_outcome(text_reply(reply), *value),
        reply matches Ok(Some(text)) ==> json_value(text@) is Err ==> (r matches Ok(
            report,
        ) && (report.old_value matches Some(v) && is_null(v))),
{
    match reply {
        Ok(None) => Ok(set_result(None, value)),
        Ok(Some(text)) => Ok(set_result(Some(parse_value(text.as_str())), value)),
        Err(e) => Err(
            StateError::because("Failed to atomically set value in Redis: ", e.as_str()),
        ),
    }
}

/// The entry, given what was made of the stored text.
pub open spec fn get_report(read: Option<Result<Value, Seq<char>>>) -> Result<
    Option<Value>,
    Seq<char>,
> {
    match read {
        None => Ok(None),
        Some(Ok(v)) => Ok(Some(v)),
        Some(Err(e)) => Err("Failed to deserialize value from Redis: "@ + e),
    }
}

/// The entry, given the answer of Redis.
pub open spec fn get_outcome(reply: Result<Option<Seq<char>>, Seq<char>>) -> Result<
    Option<Value>,
    Seq<char>,
> {
    match reply {
        Ok(None) => get_report(None),
        Ok(Some(text)) => get_report(Some(json_value(text))),
        Err(e) => Err("Failed to get value from Redis: "@ + e),
    }
}

/// The entry, given what was made of the stored text.
pub fn get_result(read: Option<Result<Value, String>>) -> (r: Result<Option<Value>, StateError>)
    ensures
        plain_outcome(r) == get_report(
            match read {
                None => None,
                Some(x) => Some(read_view(x)),
            },
        ),
{
    match read {
        None => Ok(None),
        Some(Ok(v)) => Ok(Some(v)),
        Some(Err(e)) => Err(
            StateError::because("Failed to deserialize value from Redis: ", e.as_str()),
        ),
    }
}

/// Reads the answer to reading an entry: the stored text, if there is one.
pub fn get_reply(reply: Result<Option<String>, String>) -> (r: Result<Option<Value>, StateError>)
    ensures
        plain_outcome(r) == get_outcome(text_reply(reply)),
{
    match reply {
        Ok(None) => get_result(None),
        Ok(Some(text)) => get_result(Some(parse_value(text.as_str()))),
        Err(e) => Err(StateError::because("Failed to get value from Redis: ", e.as_str())),
    }
}

/// The answer of an update whose values are still text.
#[derive(Debug)]
pub struct UpdateFrame {
    pub old_value: Option<String>,
    pub new_value: String,
    pub errors: Option<String>,
}

/// The answer of an update whose values are still text, over its view.
pub struct UpdateFrameView {
    pub old_value: Option<Seq<char>>,
    pub new_value: Seq<char>,
    pub errors: Option<Seq<char>>,
}

impl View for UpdateFrame {
    type V = UpdateFrameView;

    open spec fn view(&self) -> UpdateFrameView {
        UpdateFrameView {
            old_value: option_view(self.old_value),
            new_value: self.new_value@,
            errors: option_view(self.errors),
        }
    }
}

/// How an answer of the update script is laid out: a status, the value before, the value after,
/// and, where there is a fourth text, the errors. An empty text stands for nothing. Where the
/// status is `false`, the second text says why.
pub open spec fn update_framed(values: Seq<Seq<char>>) -> Result<UpdateFrameView, Seq<char>> {
    if values.len() < 2 {
        Err("Unexpected return value from update script"@)
    } else if values[0] == "false"@ {
        Err("Redis atomic update script failed: "@ + values[1])
    } else if values.len() == 3 || values.len() == 4 {
        Ok(
            UpdateFrameView {
                old_value: if values[1].len() == 0 {
                    None
                } else {
                    Some(values[1])
                },
                new_value: values[2],
                errors: if values.len() == 4 && values[3].len() != 0 {
                    Some(values[3])
                } else {
                    None
                },
            },
        )
    } else {
        Err(
            "Unexpected return value from update script: expected 3 or 4 values, got "@ + decimal(
                values.len(),
            ),
        )
    }
}

/// What an update reports, given what was made of each of its texts.
pub open spec fn update_report(
    old_value: Result<Option<Value>, Seq<char>>,
    new_value: Result<Value, Seq<char>>,
    errors: Result<Seq<UpdateOpError>, Seq<char>>,
) -> Result<UpdateView, Seq<char>> {
    match old_value {
        Err(e) => Err("Failed to deserialize old value: "@ + e),
        Ok(old_value) => match new_value {
            Err(e) => Err("Failed to deserialize new value: "@ + e),
            Ok(new_value) => match errors {
                Err(e) => Err("Failed to deserialize update errors: "@ + e),
                Ok(errors) => Ok(UpdateView { old_value, new_value, errors }),
            },
        },
    }
}

/// What is made of the text of a former value. The value `null` counts as no value.
pub open spec fn read_old(text: Option<Seq<char>>) -> Result<Option<Value>, Seq<char>> {
    match text {
        None => Ok(None),
        Some(t) => match json_value(t) {
            Err(e) => Err(e),
            Ok(v) => Ok(
                if is_null(v) {
                    None
                } else {
                    Some(v)
                },
            ),
        },
    }
}

/// What is made of the text of the errors.
pub open spec fn read_errors(text: Option<Seq<char>>) -> Result<Seq<UpdateOpError>, Seq<char>> {
    match text {
        None => Ok(Seq::empty()),
        Some(t) => json_op_errors(t),
    }
}

/// What an update reports, given the texts that Redis answers.
pub open spec fn update_texts_outcome(values: Seq<Seq<char>>) -> Result<UpdateView, Seq<char>> {
    match update_framed(values) {
        Err(e) => Err(e),
        Ok(frame) => update_report(
            read_old(frame.old_value),
            json_value(frame.new_value),
            read_errors(frame.errors),
        ),
    }
}

/// What an update reports, given the answer of Redis.
pub open spec fn update_outcome(reply: Result<Seq<Seq<char>>, Seq<char>>) -> Result<
    UpdateView,
    Seq<char>,
> {
    match reply {
        Ok(values) => update_texts_outcome(values),
        Err(e) => Err("Redis atomic update script failed: "@ + e),
    }
}

/// Takes an answer of the update script apart. The values stay text.
pub fn frame_update_reply(values: &Vec<String>) -> (r: Result<UpdateFrame, StateError>)
    ensures
        outcome(r) == update_framed(texts(values@)),
{
    if values.len() < 2 {
        return Err(StateError::saying("Unexpected return value from update script"));
    }
    if same(values[0].as_str(), "false") {
        return Err(
            StateError::because("Redis atomic update script failed: ", values[1].as_str()),
        );
    }
    if values.len() == 3 || values.len() == 4 {
        let old_value = if values[1].as_str().is_empty() {
            None
        } else {
            Some(values[1].clone())
        };
        let errors = if values.len() == 4 && !values[3].as_str().is_empty() {
            Some(values[3].clone())
        } else {
            None
        };
        Ok(UpdateFrame { old_value, new_value: values[2].clone(), errors })
    } else {
        Err(
            StateError::because(
                "Unexpected return value from update script: expected 3 or 4 values, got ",
                to_decimal(values.len()).as_str(),
            ),
        )
    }
}

/// What an update reports, given what was made of each of its texts. Of several errors the first
/// is reported, in the order of the texts.
pub fn update_result(
    old_value: Result<Option<Value>, String>,
    new_value: Result<Value, String>,
    errors: Result<Vec<UpdateOpError>, String>,
) -> (r: Result<StreamUpdateResult, StateError>)
    ensures
        outcome(r) == update_report(
            read_view(old_value),
            read_view(new_value),
            match errors {
                Ok(list) => Ok(list@),
                Err(e) => Err(e@),
            },
        ),
{
    let old_value = match old_value {
        Ok(v) => v,
        Err(e) => return Err(
            StateError::because("Failed to deserialize old value: ", e.as_str()),
        ),
    };
    let new_value = match new_value {
        Ok(v) => v,
        Err(e) => return Err(
            StateError::because("Failed to deserialize new value: ", e.as_str()),
        ),
    };
    let errors = match errors {
        Ok(list) => list,
        Err(e) => return Err(
            StateError::because("Failed to deserialize update errors: ", e.as_str()),
        ),
    };
    Ok(StreamUpdateResult { old_value, new_value, errors })
}

/// Reads the answer to an update.
pub fn update_reply(reply: Result<Vec<String>, String>) -> (r: Result<
    StreamUpdateResult,
    StateError,
>)
    ensures
        outcome(r) == update_outcome(texts_reply(reply)),
{
    let values = match reply {
        Ok(values) => values,
        Err(e) => return Err(
            StateError::because("Redis atomic update script failed: ", e.as_str()),
        ),
    };
    let frame = match frame_update_reply(&values) {
        Ok(frame) => frame,
        Err(e) => return Err(e),
    };
    let old_value = match &frame.old_value {
        None => Ok(None),
        Some(text) => parse_optional_value(text.as_str()),
    };
    let new_value = parse_value(frame.new_value.as_str());
    let errors = match &frame.errors {
        None => Ok(Vec::new()),
        Some(text) => parse_op_errors(text.as_str()),
    };
    update_result(old_value, new_value, errors)
}

/// Reads the answer to removing an entry. It does not matter whether there was one.
pub fn delete_reply(reply: Result<i64, String>) -> (r: Result<(), StateError>)
    ensures
        plain_outcome(r) == match reply {
            Ok(_) => Ok::<(), Seq<char>>(()),
            Err(e) => Err("Failed to delete value from Redis: "@ + e@),
        },
{
    match reply {
        Ok(_) => Ok(()),
        Err(e) => Err(StateError::because("Failed to delete value from Redis: ", e.as_str())),
    }
}

/// The entries of a scope, given what was made of their texts.
pub open spec fn list_report(reads: Seq<Result<Value, Seq<char>>>) -> Result<Seq<Value>, Seq<char>> {
    match all_read(reads) {
        Ok(values) => Ok(values),
        Err(e) => Err("Failed to deserialize value: "@ + e),
    }
}

/// What the codec makes of each text.
pub open spec fn text_reads(values: Seq<Seq<char>>) -> Seq<Result<Value, Seq<char>>> {
    values.map_values(|text: Seq<char>| json_value(text))
}

/// The entries of a scope, given the answer of Redis.
pub open spec fn list_outcome(reply: Result<Seq<Seq<char>>, Seq<char>>) -> Result<
    Seq<Value>,
    Seq<char>,
> {
    match reply {
        Ok(values) => list_report(text_reads(values)),
        Err(e) => Err("Failed to get group from Redis: "@ + e),
    }
}

/// The entries of a scope, given what was made of their texts. The first one that could not be
/// read spoils the list.
pub fn list_result(reads: Vec<Result<Value, String>>) -> (r: Result<Vec<Value>, StateError>)
    ensures
        outcome(r) == list_report(reads@.map_values(|x: Result<Value, String>| read_view(x))),
{
    let ghost views = reads@.map_values(|x: Result<Value, String>| read_view(x));
    let mut values: Vec<Value> = Vec::new();
    let mut i: usize = 0;
    assert(views.take(0) =~= Seq::empty());
    while i < reads.len()
        invariant
            0 <= i <= reads.len(),
            views == reads@.map_values(|x: Result<Value, String>| read_view(x)),
            all_read(views.take(i as int)) == Ok::<Seq<Value>, Seq<char>>(values@),
        decreases reads.len() - i,
    {
        proof {
            assert(views.take(i + 1).drop_last() =~= views.take(i as int));
            assert(views.take(i + 1).last() == views[i as int]);
        }
        match &reads[i] {
            Err(e) => {
                proof {
                    lemma_first_error_stays(views, i + 1);
                }
                return Err(StateError::because("Failed to deserialize value: ", e.as_str()));
            },
            Ok(v) => {
                values.push(v.clone());
            },
        }
        i = i + 1;
    }
    assert(views.take(i as int) =~= views);
    Ok(values)
}

/// Reads the answer to reading all entries of a scope: their texts, in the order in which they
/// are handed over.
pub fn list_reply(reply: Result<Vec<String>, String>) -> (r: Result<Vec<Value>, StateError>)
    ensures
        outcome(r) == list_outcome(texts_reply(reply)),
{
    let values = match reply {
        Ok(values) => values,
        Err(e) => return Err(
            StateError::because("Failed to get group from Redis: ", e.as_str()),
        ),
    };
    let mut reads: Vec<Result<Value, String>> = Vec::new();
    let mut i: usize = 0;
    while i < values.len()
        invariant
            0 <= i <= values.len(),
            reads.len() == i,
            forall|k: int|
                #![trigger reads[k]]
                0 <= k < i ==> read_view(reads[k]) == json_value(values[k]@),
        decreases values.len() - i,
    {
        reads.push(parse_value(values[i].as_str()));
        i = i + 1;
    }
    assert(reads@.map_values(|x: Result<Value, String>| read_view(x)) =~= text_reads(
        texts(values@),
    ));
    list_result(reads)
}

/// Reads the answer to a step of reconciliation. What the step found does not matter: the page
/// script answers for itself.
pub fn reconcile_reply(reply: Result<Vec<String>, String>) -> (r: Result<(), StateError>)
    ensures
        plain_outcome(r) == match reply {
            Ok(_) => Ok::<(), Seq<char>>(()),
            Err(e) => Err("Failed to reconcile state pagination index: "@ + e@),
        },
{
    match reply {
        Ok(_) => Ok(()),
        Err(e) => Err(
            StateError::because("Failed to reconcile state pagination index: ", e.as_str()),
        ),
    }
}

/// A page, given the answer of Redis.
pub open spec fn list_page_outcome(reply: Result<Seq<Seq<char>>, Seq<char>>) -> Result<
    PageView,
    Seq<char>,
> {
    match reply {
        Ok(values) => page_outcome(values),
        Err(e) => Err("Failed to list state page: "@ + e),
    }
}

/// Reads the answer to reading a page.
pub fn list_page_reply(reply: Result<Vec<String>, String>) -> (r: Result<
    StateListPageResult,
    StateError,
>)
    ensures
        outcome(r) == list_page_outcome(texts_reply(reply)),
{
    match reply {
        Ok(values) => decode_list_page_reply(values),
        Err(e) => Err(StateError::because("Failed to list state page: ", e.as_str())),
    }
}

} // verus!
