//! Reading the reply of the page script.

use crate::error::outcome;
use crate::error::StateError;
use crate::json::json_value;
use crate::json::parse_value;
use crate::json::read_view;
use crate::structs::option_view;
use crate::structs::ItemView;
use crate::structs::PageView;
use crate::structs::StateListPageItem;
use crate::structs::StateListPageResult;
use crate::text::same;
use serde_json::Value;
use vstd::prelude::*;

verus! {

/// A page whose values are still text.
#[derive(Debug)]
pub struct PageFrame {
    /// Fields and their values, in the order of the reply.
    pub entries: Vec<(String, String)>,
    pub next_cursor: Option<String>,
}

/// A page whose values are still text, over its view.
#[verifier::ext_equal]
pub struct FrameView {
    pub entries: Seq<(Seq<char>, Seq<char>)>,
    pub next_cursor: Option<Seq<char>>,
}

impl View for PageFrame {
    type V = FrameView;

    open spec fn view(&self) -> FrameView {
        FrameView {
            entries: self.entries@.map_values(|e: (String, String)| (e.0@, e.1@)),
            next_cursor: option_view(self.next_cursor),
        }
    }
}

/// The texts of a reply.
pub open spec fn texts(values: Seq<String>) -> Seq<Seq<char>> {
    values.map_values(|v: String| v@)
}

/// How a reply is laid out: a status, whether there is more, the next cursor, and then fields and
/// values in turn. Where the status is not `true`, what follows the cursor says why.
pub open spec fn framed(values: Seq<Seq<char>>) -> Result<FrameView, Seq<char>> {
    if values.len() < 3 {
        Err("Unexpected return value from state pagination script"@)
    } else if values[0] != "true"@ {
        Err(
            "Failed to list state page: "@ + if values.len() > 3 {
                values[3]
            } else {
                "unknown error"@
            },
        )
    } else if values.len() % 2 == 0 {
        Err("Unexpected return value from state pagination script"@)
    } else {
        Ok(
            FrameView {
                entries: Seq::new(
                    ((values.len() - 3) / 2) as nat,
                    |i: int| (values[3 + 2 * i], values[4 + 2 * i]),
                ),
                next_cursor: if values[1] == "1"@ {
                    Some(values[2])
                } else {
                    None
                },
            },
        )
    }
}

/// The values that were read, if all were; else the first error.
pub open spec fn all_read(reads: Seq<Result<Value, Seq<char>>>) -> Result<Seq<Value>, Seq<char>>
    decreases reads.len(),
{
    if reads.len() == 0 {
        Ok(Seq::empty())
    } else {
        match all_read(reads.drop_last()) {
            Err(e) => Err(e),
            Ok(values) => match reads.last() {
                Err(e) => Err(e),
                Ok(v) => Ok(values.push(v)),
            },
        }
    }
}

/// The page that a frame gives, once its values have been read.
pub open spec fn page_with(frame: FrameView, reads: Seq<Result<Value, Seq<char>>>) -> Result<
    PageView,
    Seq<char>,
> {
    match all_read(reads) {
        Err(e) => Err("Failed to deserialize paged state value: "@ + e),
        Ok(values) => Ok(
            PageView {
                items: Seq::new(
                    values.len(),
                    |i: int| ItemView { key: frame.entries[i].0, value: values[i] },
                ),
                next_cursor: frame.next_cursor,
            },
        ),
    }
}

/// What the codec makes of the values of a frame.
pub open spec fn frame_reads(frame: FrameView) -> Seq<Result<Value, Seq<char>>> {
    frame.entries.map_values(|e: (Seq<char>, Seq<char>)| json_value(e.1))
}

/// What a reply of the page script says.
pub open spec fn page_outcome(values: Seq<Seq<char>>) -> Result<PageView, Seq<char>> {
    match framed(values) {
        Err(e) => Err(e),
        Ok(frame) => page_with(frame, frame_reads(frame)),
    }
}

/// Takes a reply of the page script apart. The values stay text.
pub fn frame_list_page_reply(values: &Vec<String>) -> (r: Result<PageFrame, StateError>)
    ensures
        outcome(r) == framed(texts(values@)),
{
    if values.len() < 3 {
        return Err(StateError::saying("Unexpected return value from state pagination script"));
    }
    if !same(values[0].as_str(), "true") {
        let why = if values.len() > 3 {
            values[3].as_str()
        } else {
            "unknown error"
        };
        return Err(StateError::because("Failed to list state page: ", why));
    }
    if (values.len() - 3) % 2 != 0 {
        return Err(StateError::saying("Unexpected return value from state pagination script"));
    }
    let next_cursor = if same(values[1].as_str(), "1") {
        Some(values[2].clone())
    } else {
        None
    };
    let mut entries: Vec<(String, String)> = Vec::new();
    let mut i: usize = 3;
    while i < values.len()
        invariant
            3 <= i <= values.len(),
            values.len() % 2 == 1,
            i == 3 + 2 * entries.len(),
            forall|k: int|
                #![trigger entries[k]]
                0 <= k < entries.len() ==> entries[k].0@ == values[3 + 2 * k]@ && entries[k].1@
                    == values[4 + 2 * k]@,
        decreases values.len() - i,
    {
        entries.push((values[i].clone(), values[i + 1].clone()));
        i = i + 2;
    }
    let r = PageFrame { entries, next_cursor };
    assert(r@ =~= framed(texts(values@))->Ok_0);
    Ok(r)
}

/// The page that a frame gives, once its values have been read. The first value that could not be
/// read spoils the page.
pub fn page_of_frame(frame: PageFrame, reads: Vec<Result<Value, String>>) -> (r: Result<
    StateListPageResult,
    StateError,
>)
    requires
        reads@.len() == frame.entries@.len(),
    ensures
        outcome(r) == page_with(frame@, reads@.map_values(|x: Result<Value, String>| read_view(x))),
{
    let ghost views = reads@.map_values(|x: Result<Value, String>| read_view(x));
    let mut items: Vec<StateListPageItem> = Vec::new();
    let mut i: usize = 0;
    assert(views.take(0) =~= Seq::empty());
    while i < reads.len()
        invariant
            0 <= i <= reads.len(),
            reads@.len() == frame.entries@.len(),
            views == reads@.map_values(|x: Result<Value, String>| read_view(x)),
            items.len() == i,
            all_read(views.take(i as int)) is Ok,
            all_read(views.take(i as int))->Ok_0.len() == i,
            forall|k: int|
                #![trigger items[k]]
                0 <= k < i ==> items[k]@ == (ItemView {
                    key: frame@.entries[k].0,
                    value: all_read(views.take(i as int))->Ok_0[k],
                }),
        decreases reads.len() - i,
    {
        proof {
            assert(views.take(i + 1).drop_last() =~= views.take(i as int));
            assert(views.take(i + 1).last() == views[i as int]);
        }
        match &reads[i] {
            Err(e) => {
                proof {
                    lemma_first_error_stays(views, i + 1);
                }
                return Err(
                    StateError::because("Failed to deserialize paged state value: ", e.as_str()),
                );
            },
            Ok(v) => {
                items.push(
                    StateListPageItem { key: frame.entries[i].0.clone(), value: v.clone() },
                );
            },
        }
        i = i + 1;
    }
    assert(views.take(i as int) =~= views);
    let r = StateListPageResult { items, next_cursor: frame.next_cursor };
    assert(r@ =~= page_with(frame@, views)->Ok_0);
    Ok(r)
}

/// What has gone wrong by some point has gone wrong in the end.
pub proof fn lemma_first_error_stays(reads: Seq<Result<Value, Seq<char>>>, n: int)
    requires
        0 <= n <= reads.len(),
        all_read(reads.take(n)) is Err,
    ensures
        all_read(reads) == all_read(reads.take(n)),
    decreases reads.len() - n,
{
    if n == reads.len() {
        assert(reads.take(n) =~= reads);
    } else {
        assert(reads.take(n + 1).drop_last() =~= reads.take(n));
        lemma_first_error_stays(reads, n + 1);
    }
}

/// Either all values are read, each as its own, or the error is the one of the first that is not.
pub proof fn law_all_or_the_first_error(reads: Seq<Result<Value, Seq<char>>>)
    ensures
        match all_read(reads) {
            Ok(values) => {
                &&& values.len() == reads.len()
                &&& forall|i: int|
                    0 <= i < reads.len() ==> #[trigger] reads[i] == Ok::<Value, Seq<char>>(
                        values[i],
                    )
            },
            Err(e) => exists|i: int|
                {
                    &&& 0 <= i < reads.len()
                    &&& #[trigger] reads[i] == Err::<Value, Seq<char>>(e)
                    &&& forall|j: int| 0 <= j < i ==> #[trigger] reads[j] is Ok
                },
        },
    decreases reads.len(),
{
    if reads.len() > 0 {
        let front = reads.drop_last();
        law_all_or_the_first_error(front);
        assert forall|i: int| 0 <= i < front.len() implies front[i] == #[trigger] reads[i] by {}
        match all_read(front) {
            Err(e) => {
                let i = choose|i: int|
                    {
                        &&& 0 <= i < front.len()
                        &&& #[trigger] front[i] == Err::<Value, Seq<char>>(e)
                        &&& forall|j: int| 0 <= j < i ==> #[trigger] front[j] is Ok
                    };
                assert(reads[i] == Err::<Value, Seq<char>>(e));
                assert forall|j: int| 0 <= j < i implies #[trigger] reads[j] is Ok by {
                    assert(front[j] is Ok);
                }
            },
            Ok(values) => {
                assert(reads[reads.len() - 1] == reads.last());
            },
        }
    }
}

/// Reading two runs one after the other gives the values of both, or the first error.
pub proof fn lemma_reads_add_up(
    first: Seq<Result<Value, Seq<char>>>,
    second: Seq<Result<Value, Seq<char>>>,
)
    ensures
        all_read(first + second) == match all_read(first) {
            Err(e) => Err::<Seq<Value>, Seq<char>>(e),
            Ok(a) => match all_read(second) {
                Err(e) => Err(e),
                Ok(b) => Ok(a + b),
            },
        },
    decreases second.len(),
{
    if second.len() == 0 {
        assert(first + second =~= first);
        if let Ok(a) = all_read(first) {
            assert(a + Seq::<Value>::empty() =~= a);
        }
    } else {
        assert((first + second).drop_last() =~= first + second.drop_last());
        lemma_reads_add_up(first, second.drop_last());
        if let Ok(a) = all_read(first) {
            if let Ok(b) = all_read(second.drop_last()) {
                if let Ok(v) = second.last() {
                    assert((a + b).push(v) =~= a + b.push(v));
                }
            }
        }
    }
}

/// Two runs of entries in one reply give the items of the one and then those of the other, or the
/// first error.
pub proof fn law_runs_of_entries_add_up(
    head: Seq<Seq<char>>,
    first: Seq<Seq<char>>,
    second: Seq<Seq<char>>,
)
    requires
        head.len() == 3,
        head[0] == "true"@,
        first.len() % 2 == 0,
        second.len() % 2 == 0,
    ensures
        page_outcome(head + first + second) == match page_outcome(head + first) {
            Err(e) => Err::<PageView, Seq<char>>(e),
            Ok(a) => match page_outcome(head + second) {
                Err(e) => Err(e),
                Ok(b) => Ok(PageView { items: a.items + b.items, next_cursor: a.next_cursor }),
            },
        },
{
    let whole = framed(head + first + second)->Ok_0;
    let one = framed(head + first)->Ok_0;
    let other = framed(head + second)->Ok_0;
    assert(whole.entries =~= one.entries + other.entries);
    assert(frame_reads(whole) =~= frame_reads(one) + frame_reads(other));
    lemma_reads_add_up(frame_reads(one), frame_reads(other));
    law_all_or_the_first_error(frame_reads(one));
    law_all_or_the_first_error(frame_reads(other));
    if all_read(frame_reads(whole)) is Ok {
        assert(page_outcome(head + first + second)->Ok_0.items =~= page_outcome(
            head + first,
        )->Ok_0.items + page_outcome(head + second)->Ok_0.items);
    }
}

/// Reads a reply of the page script.
pub fn decode_list_page_reply(values: Vec<String>) -> (r: Result<StateListPageResult, StateError>)
    ensures
        outcome(r) == page_outcome(texts(values@)),
{
    let frame = match frame_list_page_reply(&values) {
        Ok(frame) => frame,
        Err(e) => return Err(e),
    };
    let mut reads: Vec<Result<Value, String>> = Vec::new();
    let mut i: usize = 0;
    while i < frame.entries.len()
        invariant
            0 <= i <= frame.entries.len(),
            reads.len() == i,
            forall|k: int|
                #![trigger reads[k]]
                0 <= k < i ==> read_view(reads[k]) == json_value(frame.entries[k].1@),
        decreases frame.entries.len() - i,
    {
        reads.push(parse_value(frame.entries[i].1.as_str()));
        i = i + 1;
    }
    assert(reads@.map_values(|x: Result<Value, String>| read_view(x)) =~= frame_reads(frame@));
    page_of_frame(frame, reads)
}

} // verus!
