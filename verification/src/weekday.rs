//! Weekday tags and the set of weekdays on which a task recurs.

use vstd::prelude::*;

verus! {

/// One weekday tag on which a task can recur.
#[derive(Clone, Copy, PartialEq, Eq, Structural, Debug)]
pub enum RecurringOption {
    Monday,
    Tuesday,
    Wednesday,
    Thursday,
    Friday,
    Saturday,
    Sunday,
}

/// A duplicate-free set over the seven weekday tags, one flag per day.
/// Membership is a field test, so freedom from duplicates is structural
/// rather than an invariant that insertion code must maintain.
#[derive(Clone, Copy, PartialEq, Eq, Structural, Debug)]
pub struct RecurringSet {
    pub monday: bool,
    pub tuesday: bool,
    pub wednesday: bool,
    pub thursday: bool,
    pub friday: bool,
    pub saturday: bool,
    pub sunday: bool,
}

impl RecurringSet {
    /// Whether weekday `w` is a member of this set.
    pub open spec fn spec_contains(self, w: RecurringOption) -> bool {
        match w {
            RecurringOption::Monday => self.monday,
            RecurringOption::Tuesday => self.tuesday,
            RecurringOption::Wednesday => self.wednesday,
            RecurringOption::Thursday => self.thursday,
            RecurringOption::Friday => self.friday,
            RecurringOption::Saturday => self.saturday,
            RecurringOption::Sunday => self.sunday,
        }
    }

    /// Whether the set has no members (the task is not recurring).
    pub open spec fn spec_is_empty(self) -> bool {
        !self.monday && !self.tuesday && !self.wednesday && !self.thursday
            && !self.friday && !self.saturday && !self.sunday
    }

    /// An empty set has no members, and a set with no members is empty.
    pub proof fn lemma_is_empty_no_members(self)
        ensures
            self.spec_is_empty() <==> (forall|w: RecurringOption| !self.spec_contains(w)),
    {
        if forall|w: RecurringOption| !self.spec_contains(w) {
            assert(!self.spec_contains(RecurringOption::Monday));
            assert(!self.spec_contains(RecurringOption::Tuesday));
            assert(!self.spec_contains(RecurringOption::Wednesday));
            assert(!self.spec_contains(RecurringOption::Thursday));
            assert(!self.spec_contains(RecurringOption::Friday));
            assert(!self.spec_contains(RecurringOption::Saturday));
            assert(!self.spec_contains(RecurringOption::Sunday));
        }
    }

    /// The set with no members.
    pub fn empty() -> (s: RecurringSet)
        ensures
            s.spec_is_empty(),
            forall|w: RecurringOption| !s.spec_contains(w),
    {
        RecurringSet {
            monday: false,
            tuesday: false,
            wednesday: false,
            thursday: false,
            friday: false,
            saturday: false,
            sunday: false,
        }
    }

    /// This set with weekday `w` added; adding a member twice changes nothing.
    pub fn with(self, w: RecurringOption) -> (s: RecurringSet)
        ensures
            forall|x: RecurringOption| s.spec_contains(x) == (x == w || self.spec_contains(x)),
    {
        let mut s = self;
        match w {
            RecurringOption::Monday => s.monday = true,
            RecurringOption::Tuesday => s.tuesday = true,
            RecurringOption::Wednesday => s.wednesday = true,
            RecurringOption::Thursday => s.thursday = true,
            RecurringOption::Friday => s.friday = true,
            RecurringOption::Saturday => s.saturday = true,
            RecurringOption::Sunday => s.sunday = true,
        }
        s
    }

    /// Membership test for weekday `w`.
    pub fn contains(&self, w: RecurringOption) -> (r: bool)
        ensures
            r == self.spec_contains(w),
    {
        match w {
            RecurringOption::Monday => self.monday,
            RecurringOption::Tuesday => self.tuesday,
            RecurringOption::Wednesday => self.wednesday,
            RecurringOption::Thursday => self.thursday,
            RecurringOption::Friday => self.friday,
            RecurringOption::Saturday => self.saturday,
            RecurringOption::Sunday => self.sunday,
        }
    }

    /// Whether the set has no members.
    pub fn is_empty(&self) -> (r: bool)
        ensures
            r == self.spec_is_empty(),
            r == (forall|w: RecurringOption| !self.spec_contains(w)),
    {
        proof {
            self.lemma_is_empty_no_members();
        }
        !self.monday && !self.tuesday && !self.wednesday && !self.thursday
            && !self.friday && !self.saturday && !self.sunday
    }

    /// The set holding exactly the tags listed in `opts`, however often and
    /// in whatever order they occur there.
    pub fn from_options(opts: &Vec<RecurringOption>) -> (s: RecurringSet)
        ensures
            forall|w: RecurringOption| s.spec_contains(w) == opts@.contains(w),
    {
        let mut s = RecurringSet::empty();
        let mut i: usize = 0;
        while i < opts.len()
            invariant
                i <= opts.len(),
                forall|w: RecurringOption| s.spec_contains(w) == opts@.take(i as int).contains(w),
            decreases opts.len() - i,
        {
            let prev = s;
            s = s.with(opts[i]);
            proof {
                assert forall|w: RecurringOption|
                    s.spec_contains(w) == opts@.take(i + 1int).contains(w) by {
                    if s.spec_contains(w) {
                        if w == opts@[i as int] {
                            assert(opts@.take(i + 1int)[i as int] == w);
                        } else {
                            let j = choose|j: int|
                                0 <= j < i && opts@.take(i as int)[j] == w;
                            assert(opts@.take(i + 1int)[j] == w);
                        }
                    } else {
                        assert(!prev.spec_contains(w));
                        assert forall|j: int| 0 <= j < i + 1 implies #[trigger] opts@.take(
                            i + 1int,
                        )[j] != w by {
                            if j < i {
                                assert(opts@.take(i as int)[j] == opts@[j]);
                            }
                        }
                    }
                }
            }
            i = i + 1;
        }
        proof {
            assert(opts@.take(opts@.len() as int) =~= opts@);
        }
        s
    }
}

} // verus!
