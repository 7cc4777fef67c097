//! The roasting schedule: a finishing time and the steps that lead to it,
//! each a number of minutes away from the finish.

use crate::clock::{
    clock_text, is_clock_text, lemma_read_then_write, lemma_shifted_in_day, lemma_write_then_read,
    minutes_of_text, shifted, ClockTime, ParseError,
};
use vstd::prelude::*;
use vstd::std_specs::convert::TryFromSpecImpl;

verus! {

/// A finishing time as it is typed into a form.
pub struct FormEnd {
    pub end: String,
}

impl View for FormEnd {
    type V = Seq<char>;

    open spec fn view(&self) -> Seq<char> {
        self.end@
    }
}

impl FormEnd {
    /// The form that holds `end`.
    pub fn new(end: String) -> (r: FormEnd)
        ensures
            r@ == end@,
    {
        FormEnd { end }
    }
}

impl TryFrom<FormEnd> for ClockTime {
    type Error = ParseError;

    /// Reads the finishing time of the form, which must be exactly `HH:MM`
    /// on the 24-hour clock.
    fn try_from(value: FormEnd) -> (r: Result<Self, ParseError>)
        ensures
            r == ClockTime::parsed(value@),
            r matches Ok(time) ==> time.wf() && time@ == minutes_of_text(value@),
    {
        ClockTime::parse(value.end.as_str())
    }
}

impl TryFromSpecImpl<FormEnd> for ClockTime {
    open spec fn obeys_try_from_spec() -> bool {
        true
    }

    open spec fn try_from_spec(v: FormEnd) -> Result<Self, ParseError> {
        ClockTime::parsed(v@)
    }
}

/// One step of the schedule: what is to be done, and how many minutes after
/// the finishing time. A step before the finish has a negative offset.
pub struct Step {
    pub step: String,
    pub offset: i64,
}

impl View for Step {
    type V = (Seq<char>, int);

    open spec fn view(&self) -> (Seq<char>, int) {
        (self.step@, self.offset as int)
    }
}

impl Step {
    /// The step `step`, `offset` minutes after the finish.
    pub fn new(step: String, offset: i64) -> (r: Step)
        ensures
            r@ == (step@, offset as int),
    {
        Step { step, offset }
    }
}

/// The views of the steps `steps`, in their order.
pub open spec fn steps_view(steps: Seq<Step>) -> Seq<(Seq<char>, int)> {
    Seq::new(steps.len(), |i: int| steps[i]@)
}

/// The schedule of the steps `steps` for the finishing time `end`, in
/// minutes since midnight: each step's name with the time at which it
/// falls, written as `HH:MM`, in the order of the steps.
pub open spec fn schedule(end: int, steps: Seq<(Seq<char>, int)>) -> Seq<(Seq<char>, Seq<char>)> {
    Seq::new(steps.len(), |i: int| (steps[i].0, clock_text(shifted(end, steps[i].1))))
}

/// What a `Timings` stands for: its finishing time in minutes since
/// midnight, and its steps.
pub struct TimingsView {
    pub end: int,
    pub steps: Seq<(Seq<char>, int)>,
}

/// A finishing time and the steps that lead to it. The finishing time can
/// be set anew; the steps stay as they were given.
pub struct Timings {
    end: ClockTime,
    steps: Vec<Step>,
}

impl View for Timings {
    type V = TimingsView;

    closed spec fn view(&self) -> TimingsView {
        TimingsView { end: self.end@, steps: steps_view(self.steps@) }
    }
}

impl Timings {
    /// The schedule with the finishing time `end` and the steps `steps`.
    pub fn new(end: ClockTime, steps: Vec<Step>) -> (r: Timings)
        ensures
            r@.end == end@,
            r@.steps == steps_view(steps@),
    {
        Timings { end, steps }
    }

    /// The finishing time.
    pub fn end(&self) -> (r: ClockTime)
        ensures
            r.wf(),
            r@ == self@.end,
    {
        proof {
            use_type_invariant(&self.end);
        }
        self.end
    }

    /// For each step, in the order of the steps, its name and the time of
    /// day at which it falls: the finishing time and the step's offset,
    /// wrapped around at midnight, written as `HH:MM`.
    pub fn times(&self) -> (r: Vec<(String, String)>)
        ensures
            r.deep_view() == schedule(self@.end, self@.steps),
    {
        let mut rows: Vec<(String, String)> = Vec::new();
        let mut i: usize = 0;
        while i < self.steps.len()
            invariant
                i <= self.steps.len(),
                rows.len() == i,
                forall|k: int|
                    0 <= k < i ==> (#[trigger] rows[k]).deep_view() == schedule(
                        self@.end,
                        self@.steps,
                    )[k],
            decreases self.steps.len() - i,
        {
            let step = &self.steps[i];
            let time = self.end.plus_minutes(step.offset);
            rows.push((step.step.clone(), Self::convert_time_to_string(time)));
            i = i + 1;
        }
        assert(rows.deep_view() =~= schedule(self@.end, self@.steps));
        rows
    }

    /// The finishing time, written as `HH:MM`.
    pub fn convert_end(&self) -> (r: String)
        ensures
            r@ == clock_text(self@.end),
    {
        Self::convert_time_to_string(self.end)
    }

    /// The time `time`, written as `HH:MM`.
    pub fn convert_time_to_string(time: ClockTime) -> (r: String)
        ensures
            r@ == clock_text(time@),
    {
        time.to_text()
    }

    /// Sets the finishing time to the one that `text` names, if `text` is
    /// exactly `HH:MM` on the 24-hour clock. If it is not, nothing changes
    /// and the reason is returned.
    pub fn set_end(&mut self, text: &str) -> (r: Result<(), ParseError>)
        ensures
            final(self)@.steps == old(self)@.steps,
            match ClockTime::parsed(text@) {
                Ok(time) => r is Ok && final(self)@.end == minutes_of_text(text@),
                Err(e) => r == Err::<(), ParseError>(e) && *final(self) == *old(self),
            },
    {
        match ClockTime::parse(text) {
            Ok(time) => {
                self.end = time;
                Ok(())
            },
            Err(e) => Err(e),
        }
    }
}

/// The finishing time of a form is set, and the schedule for it returned:
/// each step's name with its time of day, in the order of the steps. If the
/// form's text is not exactly `HH:MM` on the 24-hour clock, nothing changes
/// and the reason is returned.
pub fn compute_timings(timings: &mut Timings, form: FormEnd) -> (r: Result<
    Vec<(String, String)>,
    ParseError,
>)
    ensures
        final(timings)@.steps == old(timings)@.steps,
        match ClockTime::parsed(form@) {
            Ok(time) => {
                &&& final(timings)@.end == minutes_of_text(form@)
                &&& r matches Ok(rows)
                &&& rows.deep_view() == schedule(minutes_of_text(form@), old(timings)@.steps)
            },
            Err(e) => {
                &&& *final(timings) == *old(timings)
                &&& r matches Err(err)
                &&& err == e
            },
        },
{
    match timings.set_end(form.end.as_str()) {
        Ok(()) => Ok(timings.times()),
        Err(e) => Err(e),
    }
}

/// The schedule names the steps in their order, whatever the finishing
/// time is: it has one row for each step, and each row holds its step's
/// name.
pub proof fn lemma_schedule_keeps_order(end: int, other_end: int, steps: Seq<(Seq<char>, int)>)
    ensures
        schedule(end, steps).len() == steps.len(),
        forall|i: int| 0 <= i < steps.len() ==> (#[trigger] schedule(end, steps)[i]).0 == steps[i].0,
        forall|i: int|
            0 <= i < steps.len() ==> (#[trigger] schedule(end, steps)[i]).0 == schedule(
                other_end,
                steps,
            )[i].0,
{
}

/// Each time in a schedule is a text that names a time of day: the one
/// that lies the step's offset after the finishing time, wrapped around at
/// midnight.
pub proof fn lemma_schedule_times(end: int, steps: Seq<(Seq<char>, int)>, i: int)
    requires
        0 <= i < steps.len(),
    ensures
        is_clock_text(schedule(end, steps)[i].1),
        minutes_of_text(schedule(end, steps)[i].1) == (end + steps[i].1) % 1440,
{
    lemma_shifted_in_day(end, steps[i].1);
    lemma_write_then_read(shifted(end, steps[i].1));
}

/// A finishing time that was set from a text is written as that same text.
pub proof fn lemma_set_then_convert(text: Seq<char>)
    requires
        is_clock_text(text),
    ensures
        ClockTime::parsed(text) is Ok,
        clock_text(minutes_of_text(text)) == text,
{
    lemma_read_then_write(text);
}

} // verus!
