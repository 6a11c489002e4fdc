//! The persisted result of a committed transaction.

use vstd::prelude::*;
use crate::objects::Timestamp;
use crate::repo_view::{ReadonlyView, ViewData, ViewModel};

verus! {

/// One entry of the operation log. Has no method that changes it.
pub struct Operation {
    description: String,
    start_time: Timestamp,
    view: ViewData,
}

impl Operation {
    pub closed spec fn view_model(&self) -> ViewModel {
        self.view@
    }

    pub closed spec fn description_model(&self) -> Seq<char> {
        self.description@
    }

    pub closed spec fn start(&self) -> Timestamp {
        self.start_time
    }

    pub fn new(description: String, start_time: Timestamp, view: ViewData) -> (op: Operation)
        ensures
            op.view_model() == view@,
            op.description_model() == description@,
            op.start() == start_time,
    {
        Operation { description, start_time, view }
    }

    pub fn description(&self) -> (text: &String)
        ensures
            text@ == self.description_model(),
    {
        &self.description
    }

    pub fn start_time(&self) -> (time: Timestamp)
        ensures
            time == self.start(),
    {
        self.start_time
    }

    /// The stored form of the view that the transaction ended with.
    pub fn view_data(&self) -> (data: ViewData)
        ensures
            data@ == self.view_model(),
    {
        self.view.copy()
    }

    /// Replays the operation: the view that a reader has after applying it.
    pub fn to_view(&self) -> (view: ReadonlyView)
        ensures
            view@ == self.view_model(),
    {
        ReadonlyView::new(self.view.copy())
    }
}

} // verus!
