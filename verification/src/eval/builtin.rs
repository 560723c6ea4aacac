use vstd::prelude::*;
use crate::eval::machine::{Control, ControlView, Machine, MachineView};
use crate::eval::step::resume_spec;
use crate::expr::{anns_view, lemma_anns_view};
use crate::ops::{builtin_spec, call_builtin};
use crate::ops::arithmetic::args_view;

verus! {

/// The machine after the call that it waits for has been answered by a
/// built-in function. A machine that waits for no call, or for a call that
/// is left to the host, stays as it is.
pub open spec fn answer_builtin_spec(m: MachineView) -> MachineView {
    match m.control {
        ControlView::Call { name, args } => match builtin_spec(name, args) {
            Some(result) => resume_spec(m, result),
            None => m,
        },
        _ => m,
    }
}

impl Machine {
    /// Answers the call that the machine waits for, where it is the call
    /// of a built-in function: the function is called with the arguments
    /// and the current environment, and the machine goes on with what it
    /// returns. Returns whether the call was answered; where it was not,
    /// it is left to the host.
    pub fn answer_builtin(&mut self) -> (answered: bool)
        ensures
            final(self)@ == answer_builtin_spec(old(self)@),
            answered == (old(self)@.control matches ControlView::Call { name, args }
                && builtin_spec(name, args) is Some),
    {
        let result = match &self.control {
            Control::Call { name, args } => {
                proof {
                    lemma_anns_view(args@);
                    assert(args_view(args@) =~= anns_view(args@));
                }
                call_builtin(name.as_str(), args.as_slice(), &self.env)
            },
            _ => None,
        };
        match result {
            Some(result) => {
                self.resume(result);
                true
            },
            None => false,
        }
    }
}

} // verus!
