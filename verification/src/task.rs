//! The task record, the per-task update requests, and the store error.

use vstd::prelude::*;

use crate::date::CalendarDate;
use crate::weekday::RecurringSet;

verus! {

/// A task record: a one-off task carries a date, a recurring one a non-empty
/// set of weekday tags, and either may carry both or neither.
#[derive(Debug, Clone, PartialEq, Eq)]
pub struct Model {
    pub id: i32,
    pub title: String,
    pub date: Option<CalendarDate>,
    pub time: Option<String>,
    pub recurring_option: RecurringSet,
    pub is_completed: bool,
    pub position: i32,
}

/// The error a task operation reports.
#[derive(Clone, Copy, PartialEq, Eq, Structural, Debug)]
pub enum TaskError {
    /// A referenced task id does not exist in the store.
    TaskNotFound,
    /// Malformed input, rejected before any store work.
    ValidationError,
}

impl Model {
    /// The record's own invariant: a non-empty title, and a real calendar
    /// date when one is present. The time field is free-form and the
    /// recurring set is duplicate-free by construction.
    pub open spec fn valid(self) -> bool {
        self.title@.len() > 0 && (self.date matches Some(d) ==> d.valid())
    }

    /// This record with its completion flag set to `c` and every other
    /// field unchanged.
    pub open spec fn spec_with_completed(self, c: bool) -> Model {
        Model {
            id: self.id,
            title: self.title,
            date: self.date,
            time: self.time,
            recurring_option: self.recurring_option,
            is_completed: c,
            position: self.position,
        }
    }

    /// An equal copy of this record.
    pub fn duplicate(&self) -> (r: Model)
        ensures
            r == *self,
    {
        Model {
            id: self.id,
            title: self.title.clone(),
            date: self.date,
            time: match &self.time {
                Some(t) => Some(t.clone()),
                None => None,
            },
            recurring_option: self.recurring_option,
            is_completed: self.is_completed,
            position: self.position,
        }
    }
}

/// One record of a bulk-update batch: the id of the task to overwrite and
/// the full field set to overwrite it with.
#[derive(Debug, Clone, PartialEq, Eq)]
pub struct UpdateTaskRequest {
    pub id: i32,
    pub title: String,
    pub date: Option<CalendarDate>,
    pub time: Option<String>,
    pub recurring_option: RecurringSet,
    pub is_completed: bool,
    pub position: i32,
}

impl UpdateTaskRequest {
    /// The fields pass the same validation as a stored record's.
    pub open spec fn valid(self) -> bool {
        self.title@.len() > 0 && (self.date matches Some(d) ==> d.valid())
    }

    /// The record that applying this request leaves behind: its own id and
    /// every field taken from the request.
    pub open spec fn spec_updated(self) -> Model {
        Model {
            id: self.id,
            title: self.title,
            date: self.date,
            time: self.time,
            recurring_option: self.recurring_option,
            is_completed: self.is_completed,
            position: self.position,
        }
    }

    /// Materializes [`Self::spec_updated`].
    pub fn to_model(&self) -> (r: Model)
        ensures
            r == self.spec_updated(),
    {
        Model {
            id: self.id,
            title: self.title.clone(),
            date: self.date,
            time: match &self.time {
                Some(t) => Some(t.clone()),
                None => None,
            },
            recurring_option: self.recurring_option,
            is_completed: self.is_completed,
            position: self.position,
        }
    }
}

/// The full field set for a single-task update, addressed by a separate id.
#[derive(Debug, Clone, PartialEq, Eq)]
pub struct UpdateTaskByIdRequest {
    pub title: String,
    pub date: Option<CalendarDate>,
    pub time: Option<String>,
    pub recurring_option: RecurringSet,
    pub is_completed: bool,
    pub position: i32,
}

impl UpdateTaskByIdRequest {
    /// The fields pass the same validation as a stored record's.
    pub open spec fn valid(self) -> bool {
        self.title@.len() > 0 && (self.date matches Some(d) ==> d.valid())
    }

    /// The record that applying this request to the task `id` leaves behind.
    pub open spec fn spec_updated(self, id: i32) -> Model {
        Model {
            id,
            title: self.title,
            date: self.date,
            time: self.time,
            recurring_option: self.recurring_option,
            is_completed: self.is_completed,
            position: self.position,
        }
    }

    /// Materializes [`Self::spec_updated`] for the task `id`.
    pub fn to_model(&self, id: i32) -> (r: Model)
        ensures
            r == self.spec_updated(id),
    {
        Model {
            id,
            title: self.title.clone(),
            date: self.date,
            time: match &self.time {
                Some(t) => Some(t.clone()),
                None => None,
            },
            recurring_option: self.recurring_option,
            is_completed: self.is_completed,
            position: self.position,
        }
    }
}

} // verus!
