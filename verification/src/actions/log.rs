//! The action that writes a line to the log.

use crate::actions::{ActionError, ActionOutcome};
use crate::template::{rendered, Stamps, Template};
use vstd::prelude::*;

verus! {

/// A message, with placeholders, for the log.
pub struct LogAction {
    message: String,
}

impl LogAction {
    /// The message as it was given.
    pub closed spec fn message(&self) -> Seq<char> {
        self.message@
    }

    /// `r` is the result of the action for `path`: the action never fails,
    /// and its result is the message, filled in.
    pub open spec fn results_in(
        &self,
        path: Seq<char>,
        stamps: Stamps,
        r: Result<ActionOutcome, ActionError>,
    ) -> bool {
        r matches Ok(ActionOutcome::Logged { message }) && message@ == rendered(
            self.message(),
            path,
            stamps,
        )
    }

    /// The action that logs `message`.
    pub fn new(message: String) -> (r: Self)
        ensures
            r.message() == message@,
    {
        LogAction { message }
    }

    /// The line for `path`, with the given date and time.  The caller puts it
    /// in the log, at the level of information.
    pub fn run_at(&self, path: &str, stamps: &Stamps) -> (r: Result<ActionOutcome, ActionError>)
        ensures
            self.results_in(path@, *stamps, r),
    {
        let template = Template::new(self.message.clone());
        Ok(ActionOutcome::Logged { message: template.render_at(path, stamps) })
    }

    /// The line for `path`, with the date and time that the clock shows
    /// during the call.
    pub fn run(&self, path: &str) -> (r: Result<ActionOutcome, ActionError>)
        ensures
            exists|stamps: Stamps|
                stamps.from_clock() && #[trigger] self.results_in(path@, stamps, r),
    {
        let stamps = Stamps::now();
        let r = self.run_at(path, &stamps);
        assert(stamps.from_clock() && self.results_in(path@, stamps, r));
        r
    }
}

} // verus!
