//! What is reported, in terms of what comes back from Redis.
//!
//! Each law takes what goes into a function and what came out of it, and says what the one has to
//! do with the other: which text of an answer each value is read from, and which words an error
//! has.

use crate::connect::judge_connection;
use crate::connect::redis_url;
use crate::connect::redis_url_or_default;
use crate::connect::ConnectAttempt;
use crate::entries::delete_reply;
use crate::entries::frame_update_reply;
use crate::entries::get_reply;
use crate::entries::get_result;
use crate::entries::list_page_reply;
use crate::entries::list_reply;
use crate::entries::list_result;
use crate::entries::reconcile_reply;
use crate::entries::set_reply;
use crate::entries::set_result;
use crate::entries::text_reads;
use crate::entries::update_reply;
use crate::entries::update_result;
use crate::entries::UpdateFrame;
use crate::error::outcome;
use crate::error::StateError;
use crate::json::json_member;
use crate::json::json_op_errors;
use crate::json::json_string;
use crate::json::json_value;
use crate::json::read_view;
use crate::page::all_read;
use crate::page::decode_list_page_reply;
use crate::page::frame_list_page_reply;
use crate::page::frame_reads;
use crate::page::framed;
use crate::page::law_all_or_the_first_error;
use crate::page::page_of_frame;
use crate::page::page_outcome;
use crate::page::texts;
use crate::page::PageFrame;
use crate::structs::StateListPageInput;
use crate::structs::StateListPageResult;
use crate::structs::StateUpdateInput;
use crate::structs::StreamSetResult;
use crate::structs::StreamUpdateResult;
use crate::text::decimal;
use iii_helpers::stream::UpdateOpError;
use serde_json::Value;
use vstd::prelude::*;

verus! {

/// The text is read as this value.
pub open spec fn reads_as(text: Seq<char>, value: Value) -> bool {
    json_value(text) == Ok::<Value, Seq<char>>(value)
}

/// The text cannot be read, for this reason.
pub open spec fn unreadable(text: Seq<char>, why: Seq<char>) -> bool {
    json_value(text) == Err::<Value, Seq<char>>(why)
}

/// The error has these words.
pub open spec fn fails_with<T>(r: Result<T, StateError>, words: Seq<char>) -> bool {
    r matches Err(e) && e.message@ == words
}

/// Storing a value reports that value as the new one, whatever it is. It reports a former value
/// exactly where Redis had a text: the value of that text, or `null` where it has none.
pub proof fn law_set_reports_what_was_there(
    reply: Result<Option<String>, String>,
    value: &Value,
    r: Result<StreamSetResult, StateError>,
)
    requires
        call_ensures(set_reply, (reply, value), r),
    ensures
        reply matches Ok(text) ==> {
            &&& r matches Ok(report)
            &&& report.new_value == *value
            &&& report.old_value is Some <==> text is Some
        },
        reply matches Ok(Some(text)) ==> {
            &&& r matches Ok(report)
            &&& report.old_value matches Some(old)
            &&& reads_as(text@, old) || json_value(text@) is Err && reads_as("null"@, old)
        },
        reply matches Err(why) ==> fails_with(
            r,
            "Failed to atomically set value in Redis: "@ + why@,
        ),
{
}

/// So it is with what was made of the text, whatever made it.
pub proof fn law_set_reports_what_was_read(
    before: Option<Result<Value, String>>,
    value: &Value,
    report: StreamSetResult,
)
    requires
        call_ensures(set_result, (before, value), report),
    ensures
        report.new_value == *value,
        report.old_value is Some <==> before is Some,
        before matches Some(Ok(old)) ==> report.old_value == Some(old),
        before matches Some(Err(_)) ==> (report.old_value matches Some(old) && reads_as(
            "null"@,
            old,
        )),
{
}

/// Reading an entry gives nothing exactly where Redis has no text. Else it gives the value of the
/// text, or fails where it has none.
pub proof fn law_get_gives_what_is_stored(
    reply: Result<Option<String>, String>,
    r: Result<Option<Value>, StateError>,
)
    requires
        call_ensures(get_reply, (reply,), r),
    ensures
        r matches Ok(None) <==> reply matches Ok(None),
        reply matches Ok(Some(text)) ==> match r {
            Ok(value) => value is Some && reads_as(text@, value->0),
            Err(e) => json_value(text@) is Err && e.message@
                == "Failed to deserialize value from Redis: "@ + json_value(text@)->Err_0,
        },
        reply matches Err(why) ==> fails_with(r, "Failed to get value from Redis: "@ + why@),
{
}

/// So it is with what was made of the text, whatever made it.
pub proof fn law_get_gives_what_was_read(
    read: Option<Result<Value, String>>,
    r: Result<Option<Value>, StateError>,
)
    requires
        call_ensures(get_result, (read,), r),
    ensures
        match read {
            None => r == Ok::<Option<Value>, StateError>(None),
            Some(Ok(value)) => r == Ok::<Option<Value>, StateError>(Some(value)),
            Some(Err(why)) => fails_with(r, "Failed to deserialize value from Redis: "@ + why@),
        },
{
}

/// Removing an entry succeeds exactly where Redis did not fail, however many entries it removed.
pub proof fn law_delete_fails_only_with_redis(
    reply: Result<i64, String>,
    r: Result<(), StateError>,
)
    requires
        call_ensures(delete_reply, (reply,), r),
    ensures
        r is Ok <==> reply is Ok,
        reply matches Err(why) ==> fails_with(r, "Failed to delete value from Redis: "@ + why@),
{
}

/// A step of reconciliation succeeds exactly where Redis did not fail, whatever it answered.
pub proof fn law_reconciliation_fails_only_with_redis(
    reply: Result<Vec<String>, String>,
    r: Result<(), StateError>,
)
    requires
        call_ensures(reconcile_reply, (reply,), r),
    ensures
        r is Ok <==> reply is Ok,
        reply matches Err(why) ==> fails_with(
            r,
            "Failed to reconcile state pagination index: "@ + why@,
        ),
{
}

/// Where reading the answer to an update succeeds, the new value is the value of the third text,
/// whatever else the answer holds. The former value is the value of the second text: none where that
/// text is empty or `null`. The errors are those of the fourth text: none where there is no such
/// text or it is empty.
pub proof fn law_update_reports_each_text_as_it_is(
    values: Vec<String>,
    r: Result<StreamUpdateResult, StateError>,
)
    requires
        call_ensures(update_reply, (Ok::<Vec<String>, String>(values),), r),
    ensures
        r matches Ok(report) ==> {
            &&& values@.len() == 3 || values@.len() == 4
            &&& values@[0]@ != "false"@
            &&& reads_as(values@[2]@, report.new_value)
            &&& match report.old_value {
                Some(old) => {
                    &&& values@[1]@.len() > 0
                    &&& reads_as(values@[1]@, old)
                    &&& !reads_as("null"@, old)
                },
                None => values@[1]@.len() == 0 || (json_value(values@[1]@) matches Ok(old)
                    && reads_as("null"@, old)),
            }
            &&& if values@.len() == 4 && values@[3]@.len() > 0 {
                json_op_errors(values@[3]@) == Ok::<Seq<UpdateOpError>, Seq<char>>(
                    report.errors@,
                )
            } else {
                report.errors@.len() == 0
            }
        },
{
    lemma_texts(values@);
}

/// Reading the answer to an update succeeds where there are three or four texts, the first is not
/// `false`, and each of the others can be read or is empty where it may be. Else the error says what
/// went wrong, in this order: Redis failed; there are too few texts; the script failed; there are
/// too few or too many texts; one of them could not be read, the first one first.
pub proof fn law_update_says_what_went_wrong(
    reply: Result<Vec<String>, String>,
    r: Result<StreamUpdateResult, StateError>,
)
    requires
        call_ensures(update_reply, (reply,), r),
    ensures
        match reply {
            Err(why) => fails_with(r, "Redis atomic update script failed: "@ + why@),
            Ok(values) => if values@.len() < 2 {
                fails_with(r, "Unexpected return value from update script"@)
            } else if values@[0]@ == "false"@ {
                fails_with(r, "Redis atomic update script failed: "@ + values@[1]@)
            } else if values@.len() != 3 && values@.len() != 4 {
                fails_with(
                    r,
                    "Unexpected return value from update script: expected 3 or 4 values, got "@
                        + decimal(values@.len()),
                )
            } else if values@[1]@.len() > 0 && json_value(values@[1]@) is Err {
                fails_with(
                    r,
                    "Failed to deserialize old value: "@ + json_value(values@[1]@)->Err_0,
                )
            } else if json_value(values@[2]@) is Err {
                fails_with(
                    r,
                    "Failed to deserialize new value: "@ + json_value(values@[2]@)->Err_0,
                )
            } else if values@.len() == 4 && values@[3]@.len() > 0 && json_op_errors(
                values@[3]@,
            ) is Err {
                fails_with(
                    r,
                    "Failed to deserialize update errors: "@ + json_op_errors(
                        values@[3]@,
                    )->Err_0,
                )
            } else {
                r is Ok
            },
        },
{
    if let Ok(values) = reply {
        lemma_texts(values@);
    }
}

/// The answer to an update is cut into its texts as they are, with nothing for an empty one where
/// there may be nothing.
pub proof fn law_an_update_is_cut_into_its_texts(
    values: &Vec<String>,
    r: Result<UpdateFrame, StateError>,
)
    requires
        call_ensures(frame_update_reply, (values,), r),
    ensures
        r is Ok <==> (values@.len() == 3 || values@.len() == 4) && values@[0]@ != "false"@,
        r matches Ok(frame) ==> {
            &&& frame.new_value@ == values@[2]@
            &&& match frame.old_value {
                Some(old) => old@ == values@[1]@ && old@.len() > 0,
                None => values@[1]@.len() == 0,
            }
            &&& match frame.errors {
                Some(errors) => values@.len() == 4 && errors@ == values@[3]@ && errors@.len() > 0,
                None => values@.len() == 4 ==> values@[3]@.len() == 0,
            }
        },
        values@.len() < 2 ==> fails_with(r, "Unexpected return value from update script"@),
        values@.len() >= 2 && values@[0]@ == "false"@ ==> fails_with(
            r,
            "Redis atomic update script failed: "@ + values@[1]@,
        ),
        values@.len() >= 2 && values@[0]@ != "false"@ && values@.len() != 3 && values@.len() != 4
            ==> fails_with(
            r,
            "Unexpected return value from update script: expected 3 or 4 values, got "@
                + decimal(values@.len()),
        ),
{
    lemma_texts(values@);
}

/// What was made of the texts of an update is reported as it is, or the first error is.
pub proof fn law_update_reports_what_was_read(
    old_value: Result<Option<Value>, String>,
    new_value: Result<Value, String>,
    errors: Result<Vec<UpdateOpError>, String>,
    r: Result<StreamUpdateResult, StateError>,
)
    requires
        call_ensures(update_result, (old_value, new_value, errors), r),
    ensures
        r is Ok <==> old_value is Ok && new_value is Ok && errors is Ok,
        r matches Ok(report) ==> {
            &&& old_value == Ok::<Option<Value>, String>(report.old_value)
            &&& new_value == Ok::<Value, String>(report.new_value)
            &&& errors matches Ok(list) && report.errors@ == list@
        },
        old_value matches Err(why) ==> fails_with(r, "Failed to deserialize old value: "@ + why@),
        old_value is Ok ==> (new_value matches Err(why) ==> fails_with(
            r,
            "Failed to deserialize new value: "@ + why@,
        )),
        old_value is Ok && new_value is Ok ==> (errors matches Err(why) ==> fails_with(
            r,
            "Failed to deserialize update errors: "@ + why@,
        )),
{
}

/// The texts of an answer are its texts.
proof fn lemma_texts(values: Seq<String>)
    ensures
        texts(values).len() == values.len(),
        forall|i: int|
            #![trigger values[i]]
            0 <= i < values.len() ==> texts(values)[i] == values[i]@,
{
}

/// The texts are read as these values, one for one.
pub open spec fn all_read_as(values: Seq<String>, read: Seq<Value>) -> bool {
    &&& read.len() == values.len()
    &&& forall|i: int| 0 <= i < values.len() ==> reads_as((#[trigger] values[i])@, read[i])
}

/// The text at this place cannot be read, for this reason, and it is the first of them.
pub open spec fn first_unreadable(values: Seq<String>, at: int, why: Seq<char>) -> bool {
    &&& 0 <= at < values.len()
    &&& unreadable(values[at]@, why)
    &&& forall|i: int| 0 <= i < at ==> json_value((#[trigger] values[i])@) is Ok
}

/// Listing a scope gives the value of every text, in the order of the texts, and each as it is. It
/// fails exactly where one of them cannot be read, with the reason of the first, or where Redis
/// failed.
pub proof fn law_list_gives_the_value_of_every_text(
    reply: Result<Vec<String>, String>,
    r: Result<Vec<Value>, StateError>,
)
    requires
        call_ensures(list_reply, (reply,), r),
    ensures
        match reply {
            Err(why) => fails_with(r, "Failed to get group from Redis: "@ + why@),
            Ok(values) => match r {
                Ok(read) => all_read_as(values@, read@),
                Err(e) => exists|at: int, why: Seq<char>| #[trigger]
                    first_unreadable(values@, at, why) && e.message@
                        == "Failed to deserialize value: "@ + why,
            },
        },
{
    if let Ok(values) = reply {
        lemma_texts(values@);
        let reads = text_reads(texts(values@));
        law_all_or_the_first_error(reads);
        assert forall|i: int| #![trigger values@[i]] 0 <= i < values@.len() implies reads[i]
            == json_value(values@[i]@) by {}
        if let Err(e) = r {
            let why = all_read(reads)->Err_0;
            let at = choose|i: int|
                {
                    &&& 0 <= i < reads.len()
                    &&& #[trigger] reads[i] == Err::<Value, Seq<char>>(why)
                    &&& forall|j: int| 0 <= j < i ==> #[trigger] reads[j] is Ok
                };
            assert(first_unreadable(values@, at, why)) by {
                assert(reads[at] == json_value(values@[at]@));
                assert forall|i: int| 0 <= i < at implies json_value(
                    (#[trigger] values@[i])@,
                ) is Ok by {
                    assert(reads[i] is Ok);
                }
            }
        }
    }
}

/// So it is with what was made of the texts, whatever made it.
pub proof fn law_list_gives_all_that_was_read(
    reads: Vec<Result<Value, String>>,
    r: Result<Vec<Value>, StateError>,
)
    requires
        call_ensures(list_result, (reads,), r),
    ensures
        match r {
            Ok(read) => {
                &&& read@.len() == reads@.len()
                &&& forall|i: int|
                    0 <= i < reads@.len() ==> #[trigger] reads@[i] == Ok::<Value, String>(read@[i])
            },
            Err(e) => exists|at: int|
                {
                    &&& 0 <= at < reads@.len()
                    &&& #[trigger] reads@[at] matches Err(why) && e.message@
                        == "Failed to deserialize value: "@ + why@
                    &&& forall|i: int| 0 <= i < at ==> #[trigger] reads@[i] is Ok
                },
        },
{
    lemma_all_or_the_first(reads@);
}

/// What was read in full, or what the first failure is, over the texts of the failures.
proof fn lemma_all_or_the_first(reads: Seq<Result<Value, String>>)
    ensures
        ({
            let views = reads.map_values(|x: Result<Value, String>| read_view(x));
            match all_read(views) {
                Ok(values) => {
                    &&& values.len() == reads.len()
                    &&& forall|i: int|
                        0 <= i < reads.len() ==> #[trigger] reads[i] == Ok::<Value, String>(
                            values[i],
                        )
                },
                Err(e) => exists|at: int|
                    {
                        &&& 0 <= at < reads.len()
                        &&& #[trigger] reads[at] matches Err(why) && e == why@
                        &&& forall|i: int| 0 <= i < at ==> #[trigger] reads[i] is Ok
                    },
            }
        }),
{
    let views = reads.map_values(|x: Result<Value, String>| read_view(x));
    law_all_or_the_first_error(views);
    assert forall|i: int| #![trigger reads[i]] 0 <= i < reads.len() implies views[i] == read_view(
        reads[i],
    ) by {}
    if let Err(e) = all_read(views) {
        let at = choose|i: int|
            {
                &&& 0 <= i < views.len()
                &&& #[trigger] views[i] == Err::<Value, Seq<char>>(e)
                &&& forall|j: int| 0 <= j < i ==> #[trigger] views[j] is Ok
            };
        assert(reads[at] matches Err(why) && e == why@);
        assert forall|i: int| 0 <= i < at implies #[trigger] reads[i] is Ok by {
            assert(views[i] is Ok);
        }
    }
}

/// The key of an item in an answer: three texts come first, and then a key and a text for each item.
pub open spec fn item_key(values: Seq<String>, i: int) -> Seq<char> {
    values[3 + 2 * i]@
}

/// The text of an item in an answer.
pub open spec fn item_text(values: Seq<String>, i: int) -> Seq<char> {
    values[4 + 2 * i]@
}

/// What a page has to hold. Item by item the key is the one of the answer, and the value the one
/// that the text of the item is read as. The next cursor is the third text where the second is `1`,
/// and else there is none.
pub open spec fn is_page_of(page: StateListPageResult, values: Seq<String>) -> bool {
    &&& values.len() == 3 + 2 * page.items@.len()
    &&& values[0]@ == "true"@
    &&& forall|i: int|
        #![trigger page.items@[i]]
        0 <= i < page.items@.len() ==> {
            &&& page.items@[i].key@ == item_key(values, i)
            &&& reads_as(item_text(values, i), page.items@[i].value)
        }
    &&& match page.next_cursor {
        Some(next) => values[1]@ == "1"@ && next@ == values[2]@,
        None => values[1]@ != "1"@,
    }
}

/// The text of this item cannot be read, for this reason, and it is the first of them.
pub open spec fn first_unreadable_item(values: Seq<String>, at: int, why: Seq<char>) -> bool {
    &&& 0 <= at
    &&& 4 + 2 * at < values.len()
    &&& unreadable(item_text(values, at), why)
    &&& forall|i: int| 0 <= i < at ==> json_value(#[trigger] item_text(values, i)) is Ok
}

/// Why an answer gives no page.
pub open spec fn is_no_page(error: StateError, values: Seq<String>) -> bool {
    if values.len() < 3 {
        error.message@ == "Unexpected return value from state pagination script"@
    } else if values[0]@ != "true"@ {
        error.message@ == "Failed to list state page: "@ + if values.len() > 3 {
            values[3]@
        } else {
            "unknown error"@
        }
    } else if values.len() % 2 == 0 {
        error.message@ == "Unexpected return value from state pagination script"@
    } else {
        exists|at: int, why: Seq<char>| #[trigger]
            first_unreadable_item(values, at, why) && error.message@
                == "Failed to deserialize paged state value: "@ + why
    }
}

/// A page over the view of an answer is a page of the answer.
pub proof fn lemma_page(values: Seq<String>, r: Result<StateListPageResult, StateError>)
    requires
        outcome(r) == page_outcome(texts(values)),
    ensures
        match r {
            Ok(page) => is_page_of(page, values),
            Err(e) => is_no_page(e, values),
        },
{
    lemma_texts(values);
    if let Ok(frame) = framed(texts(values)) {
        let reads = frame_reads(frame);
        law_all_or_the_first_error(reads);
        assert forall|i: int| 0 <= i < reads.len() implies #[trigger] reads[i] == json_value(
            item_text(values, i),
        ) && frame.entries[i].0 == item_key(values, i) by {
            assert(texts(values)[3 + 2 * i] == values[3 + 2 * i]@);
            assert(texts(values)[4 + 2 * i] == values[4 + 2 * i]@);
        }
        match r {
            Ok(page) => {
                assert(page@.items.len() == page.items@.len());
                assert forall|i: int| #![trigger page.items@[i]] 0 <= i < page.items@.len() implies {
                    &&& page.items@[i].key@ == item_key(values, i)
                    &&& reads_as(item_text(values, i), page.items@[i].value)
                } by {
                    assert(page@.items[i] == page.items@[i]@);
                    assert(reads[i] == json_value(item_text(values, i)));
                }
            },
            Err(e) => {
                let why = all_read(reads)->Err_0;
                let at = choose|i: int|
                    {
                        &&& 0 <= i < reads.len()
                        &&& #[trigger] reads[i] == Err::<Value, Seq<char>>(why)
                        &&& forall|j: int| 0 <= j < i ==> #[trigger] reads[j] is Ok
                    };
                assert forall|i: int| 0 <= i < at implies json_value(
                    #[trigger] item_text(values, i),
                ) is Ok by {
                    assert(reads[i] is Ok);
                }
                assert(first_unreadable_item(values, at, why));
            },
        }
    }
}

/// On every page, also on one with a next page, item `i` has the key of item `i` of the answer and
/// exactly the value that the text of item `i` is read as. Where there is no page the error says
/// why.
pub proof fn law_a_page_gives_every_item_as_it_is(
    values: Vec<String>,
    r: Result<StateListPageResult, StateError>,
)
    requires
        call_ensures(decode_list_page_reply, (values,), r),
    ensures
        match r {
            Ok(page) => is_page_of(page, values@),
            Err(e) => is_no_page(e, values@),
        },
{
    lemma_page(values@, r);
}

/// So it is with the answer to a request for a page; where Redis failed the error says so.
pub proof fn law_a_page_reply_gives_every_item_as_it_is(
    reply: Result<Vec<String>, String>,
    r: Result<StateListPageResult, StateError>,
)
    requires
        call_ensures(list_page_reply, (reply,), r),
    ensures
        match reply {
            Err(why) => fails_with(r, "Failed to list state page: "@ + why@),
            Ok(values) => match r {
                Ok(page) => is_page_of(page, values@),
                Err(e) => is_no_page(e, values@),
            },
        },
{
    if let Ok(values) = reply {
        lemma_page(values@, r);
    }
}

/// A page of texts has the items of the answer as they are.
pub proof fn law_a_page_is_cut_into_its_items(
    values: &Vec<String>,
    r: Result<PageFrame, StateError>,
)
    requires
        call_ensures(frame_list_page_reply, (values,), r),
    ensures
        r is Ok <==> values@.len() >= 3 && values@[0]@ == "true"@ && values@.len() % 2 == 1,
        match r {
            Ok(frame) => {
                &&& values@.len() == 3 + 2 * frame.entries@.len()
                &&& forall|i: int|
                    #![trigger frame.entries@[i]]
                    0 <= i < frame.entries@.len() ==> {
                        &&& frame.entries@[i].0@ == item_key(values@, i)
                        &&& frame.entries@[i].1@ == item_text(values@, i)
                    }
                &&& match frame.next_cursor {
                    Some(next) => values@[1]@ == "1"@ && next@ == values@[2]@,
                    None => values@[1]@ != "1"@,
                }
            },
            Err(e) => is_no_page(e, values@),
        },
{
    lemma_texts(values@);
    if let Ok(frame) = r {
        assert(frame@.entries.len() == frame.entries@.len());
        assert forall|i: int| #![trigger frame.entries@[i]] 0 <= i < frame.entries@.len() implies {
            &&& frame.entries@[i].0@ == item_key(values@, i)
            &&& frame.entries@[i].1@ == item_text(values@, i)
        } by {
            assert(frame@.entries[i] == (frame.entries@[i].0@, frame.entries@[i].1@));
            assert(texts(values@)[3 + 2 * i] == values@[3 + 2 * i]@);
            assert(texts(values@)[4 + 2 * i] == values@[4 + 2 * i]@);
        }
    }
}

/// What was made of the texts of a page is on the page as it is, each item under its own key; the
/// first failure spoils the page.
pub proof fn law_a_page_holds_what_was_read(
    frame: PageFrame,
    reads: Vec<Result<Value, String>>,
    r: Result<StateListPageResult, StateError>,
)
    requires
        reads@.len() == frame.entries@.len(),
        call_ensures(page_of_frame, (frame, reads), r),
    ensures
        match r {
            Ok(page) => {
                &&& page.items@.len() == reads@.len()
                &&& forall|i: int|
                    #![trigger page.items@[i]]
                    0 <= i < page.items@.len() ==> {
                        &&& page.items@[i].key@ == frame.entries@[i].0@
                        &&& reads@[i] == Ok::<Value, String>(page.items@[i].value)
                    }
                &&& match page.next_cursor {
                    Some(next) => frame.next_cursor matches Some(n) && n@ == next@,
                    None => frame.next_cursor is None,
                }
            },
            Err(e) => exists|at: int|
                {
                    &&& 0 <= at < reads@.len()
                    &&& #[trigger] reads@[at] matches Err(why) && e.message@
                        == "Failed to deserialize paged state value: "@ + why@
                    &&& forall|i: int| 0 <= i < at ==> #[trigger] reads@[i] is Ok
                },
        },
{
    lemma_all_or_the_first(reads@);
    if let Ok(page) = r {
        assert(page@.items.len() == page.items@.len());
        assert forall|i: int| #![trigger page.items@[i]] 0 <= i < page.items@.len() implies {
            &&& page.items@[i].key@ == frame.entries@[i].0@
            &&& reads@[i] == Ok::<Value, String>(page.items@[i].value)
        } by {
            assert(page@.items[i] == page.items@[i]@);
            assert(frame@.entries[i] == (frame.entries@[i].0@, frame.entries@[i].1@));
            assert(reads@[i] is Ok);
        }
    }
}

/// The address to connect to is the string that the configuration holds under `redis_url`, whatever
/// it is. Only where there is no configuration, no such member, or a member that is not a string, is
/// it the local one.
pub proof fn law_the_configured_address_is_used(config: Option<&Value>, r: String)
    requires
        call_ensures(redis_url, (config,), r),
    ensures
        config matches Some(c) ==> json_member(*c, "redis_url"@) matches Some(value)
            ==> json_string(value) matches Some(address) ==> r@ == address,
        config is None ==> r@ == "redis://localhost:6379"@,
        config matches Some(c) ==> json_member(*c, "redis_url"@) is None ==> r@
            == "redis://localhost:6379"@,
        config matches Some(c) ==> json_member(*c, "redis_url"@) matches Some(value)
            ==> json_string(value) is None ==> r@ == "redis://localhost:6379"@,
{
}

/// An address that is configured is used as it is; else it is the local one.
pub proof fn law_an_address_is_used_as_it_is(configured: Option<&str>, r: String)
    requires
        call_ensures(redis_url_or_default, (configured,), r),
    ensures
        configured matches Some(address) ==> r@ == address@,
        configured is None ==> r@ == "redis://localhost:6379"@,
{
}

/// An attempt to connect is judged by how it ended, and an error says where Redis was looked for.
pub proof fn law_a_connection_is_judged_by_its_attempt(
    address: &str,
    limit: &str,
    attempt: &ConnectAttempt,
    r: Result<(), StateError>,
)
    requires
        call_ensures(judge_connection, (address, limit, attempt), r),
    ensures
        r is Ok <==> *attempt is Connected,
        *attempt is TimedOut ==> fails_with(
            r,
            "Redis connection timed out after "@ + limit@
                + ". Please ensure Redis is running at: "@ + address@,
        ),
        *attempt matches ConnectAttempt::Failed(why) ==> fails_with(
            r,
            "Failed to connect to Redis at "@ + address@ + ": "@ + why@,
        ),
{
}

/// A page has as many entries as asked for where that is from 1 to 1000, and 100 where nothing is
/// asked for. Nothing else is accepted.
pub proof fn law_limits_are_in_range(input: &StateListPageInput, r: Option<usize>)
    requires
        call_ensures(StateListPageInput::page_limit, (input,), r),
    ensures
        r is Some <==> (input.limit matches Some(n) ==> 1 <= n <= 1000),
        r matches Some(limit) ==> 1 <= limit <= 1000,
        input.limit is None ==> r == Some(100usize),
        r is Some && input.limit is Some ==> r == input.limit,
{
}

/// The input of an update is copied as it is, with all its steps in their order.
pub proof fn law_a_copy_of_an_update_is_the_same(input: &StateUpdateInput, r: StateUpdateInput)
    requires
        call_ensures(StateUpdateInput::clone, (input,), r),
    ensures
        r.scope@ == input.scope@,
        r.key@ == input.key@,
        r.ops@.len() == input.ops@.len(),
        forall|i: int| 0 <= i < input.ops@.len() ==> #[trigger] r.ops@[i] == input.ops@[i],
{
}

/// An error has the words that it was made from: all of them, and the reason behind what could not
/// be done.
pub proof fn law_an_error_has_all_its_words(
    words: &str,
    plain: StateError,
    what: &str,
    why: &str,
    reasoned: StateError,
)
    requires
        call_ensures(StateError::saying, (words,), plain),
        call_ensures(StateError::because, (what, why), reasoned),
    ensures
        plain.message@ == words@,
        reasoned.message@.len() == what@.len() + why@.len(),
        reasoned.message@.take(what@.len() as int) == what@,
        reasoned.message@.skip(what@.len() as int) == why@,
{
    assert(reasoned.message@.take(what@.len() as int) =~= what@);
    assert(reasoned.message@.skip(what@.len() as int) =~= why@);
}

} // verus!
