//! Execution budgets: memory and CPU units.

use vstd::prelude::*;

verus! {

/// An amount of execution units, in memory and in CPU steps.
#[derive(Clone, Copy, Debug, PartialEq, Eq, Structural)]
pub struct ExBudget {
    pub mem: i64,
    pub cpu: i64,
}

impl ExBudget {
    /// Whether `self - spent` can be represented, component by component.
    pub open spec fn can_subtract(self, spent: ExBudget) -> bool {
        &&& i64::MIN <= self.mem - spent.mem <= i64::MAX
        &&& i64::MIN <= self.cpu - spent.cpu <= i64::MAX
    }

    /// The component-wise difference `self - spent`.
    pub fn minus(self, spent: ExBudget) -> (r: ExBudget)
        requires
            self.can_subtract(spent),
        ensures
            r.mem == self.mem - spent.mem,
            r.cpu == self.cpu - spent.cpu,
    {
        ExBudget { mem: self.mem - spent.mem, cpu: self.cpu - spent.cpu }
    }
}

} // verus!
