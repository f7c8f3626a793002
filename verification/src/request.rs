//! Reading a page, call by call.

use crate::calls::list_page_call;
use crate::calls::list_page_call_view;
use crate::calls::reconcile_call;
use crate::calls::reconcile_call_view;
use crate::calls::ScriptCall;
use crate::calls::ScriptCallView;
use crate::entries::list_page_outcome;
use crate::entries::list_page_reply;
use crate::entries::reconcile_reply;
use crate::entries::texts_reply;
use crate::error::outcome;
use crate::error::StateError;
use crate::structs::option_view;
use crate::structs::PageView;
use crate::structs::StateListPageResult;
use vstd::prelude::*;

verus! {

/// A request for a page. It takes two calls: a step of reconciliation, and then the page.
#[derive(Debug)]
pub struct PageRequest {
    scope: String,
    cursor: Option<String>,
    limit: usize,
    reconciled: bool,
}

/// A request for a page, over the views.
pub struct PageRequestView {
    pub scope: Seq<char>,
    pub cursor: Option<Seq<char>>,
    pub limit: nat,
    /// The step of reconciliation has been taken.
    pub reconciled: bool,
}

impl View for PageRequest {
    type V = PageRequestView;

    closed spec fn view(&self) -> PageRequestView {
        PageRequestView {
            scope: self.scope@,
            cursor: option_view(self.cursor),
            limit: self.limit as nat,
            reconciled: self.reconciled,
        }
    }
}

/// A request that no call has been made for.
pub open spec fn fresh_request(
    scope: Seq<char>,
    cursor: Option<Seq<char>>,
    limit: nat,
) -> PageRequestView {
    PageRequestView { scope, cursor, limit, reconciled: false }
}

/// The call to make next.
pub open spec fn next_call(request: PageRequestView) -> ScriptCallView {
    if request.reconciled {
        list_page_call_view(request.scope, request.cursor, request.limit)
    } else {
        reconcile_call_view(request.scope)
    }
}

/// What a request is after an answer, and what it has come to, if it ends there.
pub open spec fn answered(
    request: PageRequestView,
    reply: Result<Seq<Seq<char>>, Seq<char>>,
) -> (PageRequestView, Option<Result<PageView, Seq<char>>>) {
    if request.reconciled {
        (request, Some(list_page_outcome(reply)))
    } else {
        match reply {
            Ok(_) => (PageRequestView { reconciled: true, ..request }, None),
            Err(e) => (request, Some(Err("Failed to reconcile state pagination index: "@ + e))),
        }
    }
}

impl PageRequest {
    /// A request for a page of at most `limit` entries. With a cursor, the page begins behind it.
    pub fn start(scope: &str, cursor: Option<&str>, limit: usize) -> (r: PageRequest)
        ensures
            r@ == fresh_request(
                scope@,
                match cursor {
                    Some(c) => Some(c@),
                    None => None,
                },
                limit as nat,
            ),
    {
        let cursor = match cursor {
            Some(c) => Some(c.to_string()),
            None => None,
        };
        PageRequest { scope: scope.to_string(), cursor, limit, reconciled: false }
    }

    /// The call to make next.
    pub fn call(&self) -> (r: ScriptCall)
        ensures
            r@ == next_call(self@),
    {
        if self.reconciled {
            let cursor = match &self.cursor {
                Some(c) => Some(c.as_str()),
                None => None,
            };
            list_page_call(self.scope.as_str(), cursor, self.limit)
        } else {
            reconcile_call(self.scope.as_str())
        }
    }

    /// Takes the answer to the call. Gives what the request has come to, or nothing where there is
    /// another call to make. A step of reconciliation that failed ends the request.
    pub fn absorb(&mut self, reply: Result<Vec<String>, String>) -> (r: Option<
        Result<StateListPageResult, StateError>,
    >)
        ensures
            final(self)@ == answered(old(self)@, texts_reply(reply)).0,
            (match r {
                Some(end) => Some(outcome(end)),
                None => None,
            }) == answered(old(self)@, texts_reply(reply)).1,
    {
        if self.reconciled {
            Some(list_page_reply(reply))
        } else {
            match reconcile_reply(reply) {
                Ok(_) => {
                    self.reconciled = true;
                    None
                },
                Err(e) => Some(Err(e)),
            }
        }
    }
}

/// A step of reconciliation comes before every page. Where it fails, its failure is what the
/// request comes to and no page is read. Else, whatever it found, the page is read, and its answer
/// is what the request comes to.
pub proof fn law_reconciliation_comes_before_every_page(
    scope: Seq<char>,
    cursor: Option<Seq<char>>,
    limit: nat,
    first: Result<Seq<Seq<char>>, Seq<char>>,
    second: Result<Seq<Seq<char>>, Seq<char>>,
)
    ensures
        ({
            let request = fresh_request(scope, cursor, limit);
            let (then, end) = answered(request, first);
            &&& next_call(request) == reconcile_call_view(scope)
            &&& match first {
                Err(e) => end == Some(
                    Err::<PageView, Seq<char>>(
                        "Failed to reconcile state pagination index: "@ + e,
                    ),
                ),
                Ok(_) => {
                    &&& end is None
                    &&& next_call(then) == list_page_call_view(scope, cursor, limit)
                    &&& answered(then, second).1 == Some(list_page_outcome(second))
                },
            }
        }),
{
}

} // verus!
