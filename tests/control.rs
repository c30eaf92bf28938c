use apto::adaptation::{tag_listed, AdaptationKind};
use apto::control::{actuation_order, config_for_iteration, is_window_boundary, samples_energy};
use apto::{
    Aggregation, ExpressionType, GoalChange, LogState, Objective, OptimizationType, SchedType,
    SchedTypeError,
};

fn objective(constraint: &str, opt_type: OptimizationType, opt_func: &str) -> Objective {
    Objective { constraint: constraint.to_string(), opt_type, opt_func: opt_func.to_string() }
}

#[test]
fn perturbation_no_change() {
    let old_goal = objective("latency", OptimizationType::Maximize, "quality");
    assert_eq!(old_goal.change_from(&old_goal, 30.0 == 30.0), GoalChange::NoChange);
}

#[test]
fn perturbation_change_objective() {
    let old_goal = objective("latency", OptimizationType::Maximize, "quality");
    let new_goal = objective("latency", OptimizationType::Minimize, "quality");
    assert_eq!(new_goal.change_from(&old_goal, 30.0 == 30.0), GoalChange::ChangeObjective);
    let new_goal = objective("latency", OptimizationType::Minimize, "somethingElse");
    assert_eq!(new_goal.change_from(&old_goal, 30.0 == 30.0), GoalChange::ChangeObjective);
}

#[test]
fn perturbation_change_constraint_value() {
    let old_goal = objective("latency", OptimizationType::Maximize, "quality");
    let new_goal = objective("latency", OptimizationType::Maximize, "quality");
    assert_eq!(new_goal.change_from(&old_goal, 60.0 == 30.0), GoalChange::ChangeConstraintValue);
}

#[test]
fn perturbation_entire_goal() {
    let old_goal = objective("latency", OptimizationType::Maximize, "quality");
    let new_goal = objective("performance", OptimizationType::Maximize, "quality");
    assert_eq!(new_goal.change_from(&old_goal, 30.0 == 30.0), GoalChange::ChangeEntireGoal);
    let new_goal = objective("latency", OptimizationType::Maximize, "somethingElse");
    assert_eq!(new_goal.change_from(&old_goal, 60.0 == 30.0), GoalChange::ChangeEntireGoal);
}

#[test]
fn sched_type_selection() {
    assert_eq!(SchedType::new(false, None), Ok(SchedType::ControlMultiConf));
    assert_eq!(SchedType::new(false, Some("x".to_string())), Ok(SchedType::ControlMultiConf));
    assert_eq!(SchedType::new(true, Some("multi".to_string())), Ok(SchedType::RLMultiConf));
    assert_eq!(SchedType::new(true, Some("single".to_string())), Ok(SchedType::RLSingleConf));
    assert_eq!(SchedType::new(true, Some("both".to_string())), Err(SchedTypeError::UnknownConfType));
    assert_eq!(SchedType::new(true, None), Err(SchedTypeError::MissingConfType));
    assert_eq!(SchedType::RLMultiConf.label(), "RLMutliConf");
    assert!(SchedType::ControlMultiConf.adapts_controller());
    assert!(!SchedType::RLSingleConf.adapts_controller());
}

#[test]
fn labels_and_expression_kind() {
    assert_eq!(OptimizationType::Minimize.label(), "minimize");
    assert_eq!(OptimizationType::Maximize.label(), "maximize");
    assert_eq!(ExpressionType::of_measures(0), ExpressionType::Value);
    assert_eq!(ExpressionType::of_measures(1), ExpressionType::Value);
    assert_eq!(ExpressionType::of_measures(2), ExpressionType::Expression);
}

#[test]
fn schedule_splits_window() {
    let sched = (1, 2, 2);
    let picks: Vec<u64> = (0..8).map(|i| config_for_iteration(sched, i, 4)).collect();
    assert_eq!(picks, vec![1, 1, 2, 2, 1, 1, 2, 2]);
    let single = (1, 1, 4);
    assert!((0..8).all(|i| config_for_iteration(single, i, 4) == 1));
    let upper_only = (0, 2, 0);
    assert!((0..8).all(|i| config_for_iteration(upper_only, i, 4) == 2));
}

#[test]
fn window_boundaries() {
    assert!(is_window_boundary(0, 4));
    assert!(!is_window_boundary(3, 4));
    assert!(is_window_boundary(8, 4));
    assert!(samples_energy(1, 4));
    assert!(!samples_energy(2, 4));
    assert!(samples_energy(4, 4));
}

#[test]
fn dependent_knobs_come_last() {
    let names: Vec<String> = ["cacheCOS", "uncoreFrequency", "hyperthreading", "utilizedPhysicalCores"]
        .iter()
        .map(|s| s.to_string())
        .collect();
    assert_eq!(actuation_order(&names), vec![1, 3, 2, 0]);
}

#[test]
fn adaptation_instances() {
    assert_eq!(tag_listed("0,3,5", 3), Ok(true));
    assert_eq!(tag_listed("0,,5", 3), Ok(false));
    assert_eq!(tag_listed("", 0), Ok(false));
    assert_eq!(tag_listed("1,x,3", 3), Err(1));
    assert_eq!(tag_listed("3,x", 3), Ok(true));
    assert_eq!(AdaptationKind::from_name(&"ewma".to_string()), Some(AdaptationKind::Ewma));
    assert_eq!(AdaptationKind::from_name(&"linear".to_string()), Some(AdaptationKind::Linear));
    assert_eq!(AdaptationKind::from_name(&"modeled".to_string()), Some(AdaptationKind::Modeled));
    assert_eq!(AdaptationKind::from_name(&"inaccuracy".to_string()), None);
}

#[test]
fn window_log_keeps_last_two() {
    let mut ls: LogState<u32> = LogState::new();
    assert_eq!(ls.last(), None);
    assert_eq!(ls.second_last(), None);
    ls.log(7);
    assert_eq!(ls.last(), Some(&7));
    assert_eq!(ls.second_last(), None);
    ls.log(9);
    ls.log(11);
    assert_eq!(ls.last(), Some(&11));
    assert_eq!(ls.second_last(), Some(&9));
    assert_eq!(ls.len(), 3);
    assert_eq!(*ls.entries(), vec![7, 9, 11]);
}

#[test]
fn measure_aggregations() {
    assert_eq!(Aggregation::for_measure(&"id".to_string()), None);
    assert_eq!(Aggregation::for_measure(&"powerConsumption".to_string()), Some(Aggregation::Last));
    assert_eq!(Aggregation::for_measure(&"harmonicMeanABS".to_string()), Some(Aggregation::Last));
    assert_eq!(Aggregation::for_measure(&"energyDelta".to_string()), Some(Aggregation::LastPerWindow));
    assert_eq!(Aggregation::for_measure(&"latency".to_string()), Some(Aggregation::Mean));
}
