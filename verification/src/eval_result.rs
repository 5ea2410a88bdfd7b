//! The record of one script evaluation.

use crate::budget::ExBudget;
use crate::ledger::views;
use crate::term::{
    end_view, BuiltinCall, BuiltinCallView, Constant, ConstantView, MachineError, Term, TermView,
};
use vstd::prelude::*;

verus! {

/// How an evaluation ended, what it cost and what it logged.
#[derive(Debug)]
pub struct EvalResult {
    result: Result<Term, MachineError>,
    remaining_budget: ExBudget,
    initial_budget: ExBudget,
    logs: Vec<String>,
    builtin_calls: Vec<BuiltinCall>,
}

/// The mathematical value of an [`EvalResult`].
pub struct EvalResultView {
    pub result: Result<TermView, Seq<char>>,
    pub remaining_budget: ExBudget,
    pub initial_budget: ExBudget,
    pub logs: Seq<Seq<char>>,
    pub builtin_calls: Seq<BuiltinCallView>,
}

/// Whether an evaluation that ended in `result` counts as failed. Where an
/// error is what the caller hopes for, it failed if it ended in a term other
/// than the constant `false`. Otherwise it failed unless it ended in the
/// constant `true` or in the unit constant.
pub open spec fn failure(result: Result<TermView, Seq<char>>, can_error: bool) -> bool {
    if can_error {
        result is Ok && result != Ok::<TermView, Seq<char>>(
            TermView::Constant(ConstantView::Bool(false)),
        )
    } else {
        result != Ok::<TermView, Seq<char>>(TermView::Constant(ConstantView::Bool(true)))
            && result != Ok::<TermView, Seq<char>>(TermView::Constant(ConstantView::Unit))
    }
}

impl View for EvalResult {
    type V = EvalResultView;

    closed spec fn view(&self) -> EvalResultView {
        EvalResultView {
            result: end_view(self.result),
            remaining_budget: self.remaining_budget,
            initial_budget: self.initial_budget,
            logs: views(self.logs@),
            builtin_calls: views(self.builtin_calls@),
        }
    }
}

impl EvalResult {
    /// The record of an evaluation that ended in `result` with
    /// `remaining_budget` left of `initial_budget`.
    pub fn new(
        result: Result<Term, MachineError>,
        remaining_budget: ExBudget,
        initial_budget: ExBudget,
        logs: Vec<String>,
        builtin_calls: Vec<BuiltinCall>,
    ) -> (r: EvalResult)
        ensures
            r@ == (EvalResultView {
                result: end_view(result),
                remaining_budget,
                initial_budget,
                logs: views(logs@),
                builtin_calls: views(builtin_calls@),
            }),
    {
        EvalResult { result, remaining_budget, initial_budget, logs, builtin_calls }
    }

    /// What the evaluation spent: the initial budget less what remains.
    pub fn cost(&self) -> (r: ExBudget)
        requires
            self@.initial_budget.can_subtract(self@.remaining_budget),
        ensures
            r.mem == self@.initial_budget.mem - self@.remaining_budget.mem,
            r.cpu == self@.initial_budget.cpu - self@.remaining_budget.cpu,
    {
        self.initial_budget.minus(self.remaining_budget)
    }

    /// Whether `cost` can be asked for: what was spent fits the budget's
    /// integers.
    pub fn cost_is_representable(&self) -> (r: bool)
        ensures
            r == self@.initial_budget.can_subtract(self@.remaining_budget),
    {
        self.initial_budget.mem.checked_sub(self.remaining_budget.mem).is_some()
            && self.initial_budget.cpu.checked_sub(self.remaining_budget.cpu).is_some()
    }

    /// Takes the logs out of the record, which keeps none.
    pub fn logs(&mut self) -> (r: Vec<String>)
        ensures
            views(r@) == old(self)@.logs,
            final(self)@ == (EvalResultView { logs: Seq::empty(), ..old(self)@ }),
    {
        let mut taken: Vec<String> = Vec::new();
        std::mem::swap(&mut self.logs, &mut taken);
        assert(views(self.logs@) =~= Seq::<Seq<char>>::empty());
        taken
    }

    /// Takes the traced builtin calls out of the record, which keeps none.
    pub fn builtin_calls(&mut self) -> (r: Vec<BuiltinCall>)
        ensures
            views(r@) == old(self)@.builtin_calls,
            final(self)@ == (EvalResultView { builtin_calls: Seq::empty(), ..old(self)@ }),
    {
        let mut taken: Vec<BuiltinCall> = Vec::new();
        std::mem::swap(&mut self.builtin_calls, &mut taken);
        assert(views(self.builtin_calls@) =~= Seq::<BuiltinCallView>::empty());
        taken
    }

    /// Whether the evaluation counts as failed, for a caller that hopes for
    /// an error (`can_error`) or for one that does not.
    pub fn failed(&self, can_error: bool) -> (r: bool)
        ensures
            r == failure(self@.result, can_error),
    {
        if can_error {
            match &self.result {
                Ok(Term::Constant(Constant::Bool(false))) => false,
                Ok(_) => true,
                Err(_) => false,
            }
        } else {
            match &self.result {
                Ok(Term::Constant(Constant::Bool(true))) => false,
                Ok(Term::Constant(Constant::Unit)) => false,
                _ => true,
            }
        }
    }

    /// The constant in which the evaluation ended, if it ended in one.
    pub fn unwrap_constant(self) -> (r: Result<Constant, ()>)
        ensures
            match self@.result {
                Ok(TermView::Constant(c)) => r matches Ok(k) && k@ == c,
                _ => r is Err,
            },
    {
        match self.result {
            Ok(Term::Constant(constant)) => Ok(constant),
            _ => Err(()),
        }
    }

    /// How the evaluation ended: in a term, or in an error of the machine.
    pub fn result(&self) -> (r: Result<Term, MachineError>)
        ensures
            end_view(r) == self@.result,
    {
        match &self.result {
            Ok(term) => Ok(term.clone()),
            Err(e) => Err(e.clone()),
        }
    }
}

} // verus!
