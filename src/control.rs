use vstd::prelude::*;

verus! {

/// Whether the objective is to be minimised or maximised.
#[derive(Clone, Copy, Debug, PartialEq, Eq, Structural)]
pub enum OptimizationType {
    Minimize,
    Maximize,
}

impl OptimizationType {
    pub open spec fn spec_label(self) -> Seq<char> {
        match self {
            OptimizationType::Minimize => "minimize"@,
            OptimizationType::Maximize => "maximize"@,
        }
    }

    /// The lower-case name of the direction.
    pub fn label(&self) -> (r: String)
        ensures
            r@ == self.spec_label(),
    {
        match self {
            OptimizationType::Minimize => String::from_str("minimize"),
            OptimizationType::Maximize => String::from_str("maximize"),
        }
    }
}

/// How the objective is reduced to a number at each scheduling candidate:
/// directly (zero or one measure) or by evaluating the expression.
#[derive(Clone, Copy, Debug, PartialEq, Eq, Structural)]
pub enum ExpressionType {
    Value,
    Expression,
}

impl ExpressionType {
    pub fn of_measures(nr_measures: usize) -> (r: ExpressionType)
        ensures
            r == (if nr_measures <= 1 {
                ExpressionType::Value
            } else {
                ExpressionType::Expression
            }),
    {
        if nr_measures <= 1 {
            ExpressionType::Value
        } else {
            ExpressionType::Expression
        }
    }
}

/// The scheduler variant of a controller instance.
#[derive(Clone, Copy, Debug, PartialEq, Eq, Structural)]
pub enum SchedType {
    RLMultiConf,
    RLSingleConf,
    ControlMultiConf,
}

/// Why a scheduler variant could not be chosen.
#[derive(Clone, Copy, Debug, PartialEq, Eq, Structural)]
pub enum SchedTypeError {
    /// Learning was asked for without a configuration type.
    MissingConfType,
    /// The configuration type is neither `multi` nor `single`.
    UnknownConfType,
}

impl SchedType {
    /// The control-based variant unless learning is asked for; then
    /// `conf_type` picks the multi- or the single-configuration variant.
    pub fn new(learning_based: bool, conf_type: Option<String>) -> (r: Result<SchedType, SchedTypeError>)
        ensures
            !learning_based ==> r == Ok::<SchedType, SchedTypeError>(SchedType::ControlMultiConf),
            learning_based ==> r == match conf_type {
                None => Err(SchedTypeError::MissingConfType),
                Some(t) => if t@ == "multi"@ {
                    Ok(SchedType::RLMultiConf)
                } else if t@ == "single"@ {
                    Ok(SchedType::RLSingleConf)
                } else {
                    Err(SchedTypeError::UnknownConfType)
                },
            },
    {
        if !learning_based {
            return Ok(SchedType::ControlMultiConf);
        }
        match conf_type {
            None => Err(SchedTypeError::MissingConfType),
            Some(t) => {
                let multi = String::from_str("multi");
                let single = String::from_str("single");
                if t == multi {
                    Ok(SchedType::RLMultiConf)
                } else if t == single {
                    Ok(SchedType::RLSingleConf)
                } else {
                    Err(SchedTypeError::UnknownConfType)
                }
            },
        }
    }

    pub open spec fn spec_label(self) -> Seq<char> {
        match self {
            SchedType::RLMultiConf => "RLMutliConf"@,
            SchedType::RLSingleConf => "RLSingleConf"@,
            SchedType::ControlMultiConf => "ControlMultiConf"@,
        }
    }

    pub fn label(&self) -> (r: String)
        ensures
            r@ == self.spec_label(),
    {
        match self {
            SchedType::RLMultiConf => String::from_str("RLMutliConf"),
            SchedType::RLSingleConf => String::from_str("RLSingleConf"),
            SchedType::ControlMultiConf => String::from_str("ControlMultiConf"),
        }
    }

    /// Whether the pole multiplier goes to the speedup controller (and not
    /// to the workload estimator).
    pub fn adapts_controller(&self) -> (r: bool)
        ensures
            r == (*self == SchedType::ControlMultiConf),
    {
        match self {
            SchedType::ControlMultiConf => true,
            _ => false,
        }
    }
}

/// A schedule: the entry for the first `n_lower` iterations of a window,
/// the entry for the rest, and `n_lower`.
pub type Schedule = (u64, u64, u64);

/// The profile entry that iteration `iteration` runs at under `sched`.
pub open spec fn spec_config_for(sched: Schedule, iteration: u64, window: u64) -> u64 {
    if iteration % window >= sched.2 {
        sched.1
    } else {
        sched.0
    }
}

/// The profile entry to apply at `iteration`: the lower one while the
/// iteration's offset in its window is below `n_lower`, the upper one after.
pub fn config_for_iteration(sched: Schedule, iteration: u64, window: u64) -> (r: u64)
    requires
        window > 0,
    ensures
        r == spec_config_for(sched, iteration, window),
{
    if iteration % window >= sched.2 {
        sched.1
    } else {
        sched.0
    }
}

/// Whether a new schedule is computed before `iteration` runs.
pub fn is_window_boundary(iteration: u64, window: u64) -> (r: bool)
    requires
        window > 0,
    ensures
        r == (iteration % window == 0),
{
    iteration % window == 0
}

/// Whether the energy monitor is read before `iteration` runs: at the first
/// iteration and at each window boundary.
pub fn samples_energy(iteration: u64, window: u64) -> (r: bool)
    requires
        window > 0,
    ensures
        r == (iteration == 1 || iteration % window == 0),
{
    iteration == 1 || iteration % window == 0
}

/// Knobs that depend on the affinity mask that the others produce.
pub open spec fn is_dependent_knob(name: Seq<char>) -> bool {
    name == "hyperthreading"@ || name == "cacheCOS"@
}

/// The positions below `n` whose name satisfies `sel`, in order.
pub open spec fn positions_where(names: Seq<Seq<char>>, sel: spec_fn(Seq<char>) -> bool, n: int) -> Seq<usize>
    decreases n,
{
    if n <= 0 {
        Seq::empty()
    } else if sel(names[n - 1]) {
        positions_where(names, sel, n - 1).push((n - 1) as usize)
    } else {
        positions_where(names, sel, n - 1)
    }
}

/// The order in which knobs are actuated: every knob that does not depend
/// on the affinity mask, in the given order, then `hyperthreading`, then
/// `cacheCOS`.
pub open spec fn spec_actuation_order(names: Seq<Seq<char>>) -> Seq<usize> {
    positions_where(names, |n: Seq<char>| !is_dependent_knob(n), names.len() as int)
        + positions_where(names, |n: Seq<char>| n == "hyperthreading"@, names.len() as int)
        + positions_where(names, |n: Seq<char>| n == "cacheCOS"@, names.len() as int)
}

fn positions_of(names: &Vec<String>, which: u8) -> (r: Vec<usize>)
    requires
        which <= 2,
    ensures
        which == 0 ==> r@ == positions_where(names.deep_view(), |n: Seq<char>| !is_dependent_knob(n), names@.len() as int),
        which == 1 ==> r@ == positions_where(names.deep_view(), |n: Seq<char>| n == "hyperthreading"@, names@.len() as int),
        which == 2 ==> r@ == positions_where(names.deep_view(), |n: Seq<char>| n == "cacheCOS"@, names@.len() as int),
{
    let ht = String::from_str("hyperthreading");
    let cos = String::from_str("cacheCOS");
    let ghost dn = names.deep_view();
    let mut r: Vec<usize> = Vec::new();
    let mut i: usize = 0;
    while i < names.len()
        invariant
            i <= names@.len(),
            dn == names.deep_view(),
            ht@ == "hyperthreading"@,
            cos@ == "cacheCOS"@,
            which == 0 ==> r@ == positions_where(dn, |n: Seq<char>| !is_dependent_knob(n), i as int),
            which == 1 ==> r@ == positions_where(dn, |n: Seq<char>| n == "hyperthreading"@, i as int),
            which == 2 ==> r@ == positions_where(dn, |n: Seq<char>| n == "cacheCOS"@, i as int),
        decreases names@.len() - i,
    {
        assert(dn[i as int] == names@[i as int]@);
        let is_ht = names[i] == ht;
        let is_cos = names[i] == cos;
        let take = if which == 0 {
            !is_ht && !is_cos
        } else if which == 1 {
            is_ht
        } else {
            is_cos
        };
        if take {
            r.push(i);
        }
        i = i + 1;
    }
    r
}

/// The positions of `names` in the order of actuation.
pub fn actuation_order(names: &Vec<String>) -> (r: Vec<usize>)
    ensures
        r@ == spec_actuation_order(names.deep_view()),
{
    let mut r = positions_of(names, 0);
    let mut ht = positions_of(names, 1);
    let mut cos = positions_of(names, 2);
    r.append(&mut ht);
    r.append(&mut cos);
    r
}

/// The part of a goal that is not a number: the constrained measure and the
/// objective.
pub struct Objective {
    pub constraint: String,
    pub opt_type: OptimizationType,
    pub opt_func: String,
}

/// What changes between two goals.
#[derive(Clone, Copy, Debug, PartialEq, Eq, Structural)]
pub enum GoalChange {
    NoChange,
    /// Same constraint and target; a new objective.
    ChangeObjective,
    /// Same constraint and objective; a new target.
    ChangeConstraintValue,
    /// Anything else: the controller is built anew.
    ChangeEntireGoal,
}

pub open spec fn spec_goal_change(same_target: bool, same_constraint: bool, same_objective: bool) -> GoalChange {
    if same_target && same_constraint && same_objective {
        GoalChange::NoChange
    } else if same_target && same_constraint {
        GoalChange::ChangeObjective
    } else if same_constraint && same_objective {
        GoalChange::ChangeConstraintValue
    } else {
        GoalChange::ChangeEntireGoal
    }
}

impl Objective {
    pub open spec fn same_objective(&self, other: &Objective) -> bool {
        self.opt_type == other.opt_type && self.opt_func@ == other.opt_func@
    }

    /// The change from `previous` to `self`, where `same_target` tells
    /// whether the two goals have the same target value.
    pub fn change_from(&self, previous: &Objective, same_target: bool) -> (r: GoalChange)
        ensures
            r == spec_goal_change(same_target, self.constraint@ == previous.constraint@, self.same_objective(previous)),
    {
        let same_constraint = self.constraint == previous.constraint;
        let same_objective = self.opt_type == previous.opt_type && self.opt_func == previous.opt_func;
        if same_target && same_constraint && same_objective {
            GoalChange::NoChange
        } else if same_target && same_constraint {
            GoalChange::ChangeObjective
        } else if same_constraint && same_objective {
            GoalChange::ChangeConstraintValue
        } else {
            GoalChange::ChangeEntireGoal
        }
    }
}

/// A goal compared with itself has not changed.
pub proof fn goal_minus_itself_is_no_change(g: Objective)
    ensures
        spec_goal_change(true, g.constraint@ == g.constraint@, g.same_objective(&g)) == GoalChange::NoChange,
{
}

} // verus!
