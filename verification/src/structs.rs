//! Inputs, results and events of the state operations.

use iii_helpers::stream::UpdateOp;
use iii_helpers::stream::UpdateOpError;
use serde_json::Value;
use vstd::prelude::*;

verus! {

#[derive(Debug, Clone)]
pub struct StateSetInput {
    /// Namespace that groups related keys (e.g. `users`, `orders`).
    pub scope: String,
    /// Identifier for the value within the scope.
    pub key: String,
    /// Arbitrary JSON value to store. Replaces any existing value at `scope`/`key`.
    pub value: Value,
}

#[derive(Debug, Clone)]
pub struct StateGetInput {
    /// Namespace that groups related keys.
    pub scope: String,
    /// Identifier for the value within the scope.
    pub key: String,
}

#[derive(Debug, Clone)]
pub struct StateDeleteInput {
    /// Namespace that groups related keys.
    pub scope: String,
    /// Identifier for the value to delete within the scope.
    pub key: String,
}

#[derive(Debug)]
pub struct StateUpdateInput {
    /// Namespace that groups related keys.
    pub scope: String,
    /// Identifier for the value to update within the scope.
    pub key: String,
    /// Ordered list of update operations applied atomically to the existing value.
    pub ops: Vec<UpdateOp>,
}

impl Clone for StateUpdateInput {
    fn clone(&self) -> (r: StateUpdateInput)
        ensures
            r.scope@ == self.scope@,
            r.key@ == self.key@,
            r.ops@ == self.ops@,
    {
        let mut ops: Vec<UpdateOp> = Vec::new();
        let mut i: usize = 0;
        while i < self.ops.len()
            invariant
                0 <= i <= self.ops.len(),
                ops@ == self.ops@.take(i as int),
            decreases self.ops.len() - i,
        {
            ops.push(self.ops[i].clone());
            i = i + 1;
            assert(ops@ =~= self.ops@.take(i as int));
        }
        assert(self.ops@.take(i as int) =~= self.ops@);
        StateUpdateInput { scope: self.scope.clone(), key: self.key.clone(), ops }
    }
}

#[derive(Debug, Clone)]
pub struct StateGetGroupInput {
    /// Namespace whose keys should be listed as a group.
    pub scope: String,
}

/// The number of entries on a page where none is asked for.
pub const DEFAULT_PAGE_LIMIT: usize = 100;

/// The largest number of entries that a page may be asked for.
pub const MAX_PAGE_LIMIT: usize = 1000;

#[derive(Debug, Clone)]
pub struct StateListPageInput {
    /// Namespace whose entries should be listed.
    pub scope: String,
    /// Opaque key token returned by the previous page. The bound is exclusive.
    pub cursor: Option<String>,
    /// Maximum number of entries to return. Defaults to 100 and must be 1..=1000.
    pub limit: Option<usize>,
}

impl StateListPageInput {
    /// The number of entries to read for this input, or `None` where the limit is out of range.
    pub fn page_limit(&self) -> (r: Option<usize>)
        ensures
            r == match self.limit {
                None => Some(DEFAULT_PAGE_LIMIT),
                Some(n) => if 1 <= n <= MAX_PAGE_LIMIT {
                    Some(n)
                } else {
                    None
                },
            },
    {
        match self.limit {
            None => Some(DEFAULT_PAGE_LIMIT),
            Some(n) => if 1 <= n && n <= MAX_PAGE_LIMIT {
                Some(n)
            } else {
                None
            },
        }
    }
}

#[derive(Debug, Clone, PartialEq)]
pub struct StateListPageItem {
    pub key: String,
    pub value: Value,
}

/// An entry of a page, over its view.
pub struct ItemView {
    pub key: Seq<char>,
    pub value: Value,
}

impl View for StateListPageItem {
    type V = ItemView;

    open spec fn view(&self) -> ItemView {
        ItemView { key: self.key@, value: self.value }
    }
}

#[derive(Debug, Clone, PartialEq)]
pub struct StateListPageResult {
    pub items: Vec<StateListPageItem>,
    pub next_cursor: Option<String>,
}

/// A page, over its view.
#[verifier::ext_equal]
pub struct PageView {
    pub items: Seq<ItemView>,
    pub next_cursor: Option<Seq<char>>,
}

/// An optional text, over its view.
pub open spec fn option_view(text: Option<String>) -> Option<Seq<char>> {
    match text {
        Some(t) => Some(t@),
        None => None,
    }
}

impl View for StateListPageResult {
    type V = PageView;

    open spec fn view(&self) -> PageView {
        PageView {
            items: self.items@.map_values(|item: StateListPageItem| item@),
            next_cursor: option_view(self.next_cursor),
        }
    }
}

#[derive(Debug, Clone)]
pub struct StateListGroupsInput {}

#[derive(Debug, Clone)]
pub struct StateListGroupsResult {
    pub groups: Vec<String>,
}

#[derive(Debug, Clone)]
pub enum StateEventType {
    Created,
    Updated,
    Deleted,
}

#[derive(Debug, Clone)]
pub struct StateEventData {
    pub message_type: String,
    pub event_type: StateEventType,
    pub scope: String,
    pub key: String,
    pub old_value: Option<Value>,
    pub new_value: Value,
}

/// What storing a value reports.
#[derive(Debug)]
pub struct StreamSetResult {
    /// Previous value (if it existed).
    pub old_value: Option<Value>,
    /// The value that is stored now.
    pub new_value: Value,
}

/// What an update reports.
#[derive(Debug)]
pub struct StreamUpdateResult {
    /// Previous value (if it existed).
    pub old_value: Option<Value>,
    /// The value after the update.
    pub new_value: Value,
    /// The steps that were not applied. The others are reflected in `new_value`.
    pub errors: Vec<UpdateOpError>,
}

/// What an update reports, over the views.
pub struct UpdateView {
    pub old_value: Option<Value>,
    pub new_value: Value,
    pub errors: Seq<UpdateOpError>,
}

impl View for StreamUpdateResult {
    type V = UpdateView;

    open spec fn view(&self) -> UpdateView {
        UpdateView {
            old_value: self.old_value,
            new_value: self.new_value,
            errors: self.errors@,
        }
    }
}

} // verus!
