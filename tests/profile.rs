use apto::objective::objective_measures;
use apto::{transpose, ActiveModel, KnobState, KnobTable, TableError};

const KNOB_TABLE_STRING: &str = "id,step,threshold
0,1,50000
1,1,200000
2,4,50000
3,4,200000";

fn knob(name: &str, values: Vec<u64>, current: u64) -> KnobState {
    KnobState { name: name.to_string(), values, current }
}

/// A key whose integer order is the order of the floats.
fn order_key(x: f64) -> u64 {
    let b = x.to_bits();
    if b >> 63 == 1 {
        !b
    } else {
        b | (1 << 63)
    }
}

#[test]
fn test_transpose() {
    let original = vec![
        vec!["a", "b", "c"],
        vec!["d", "e", "f"],
        vec!["g", "h", "i"],
    ];
    assert_eq!(
        transpose(&original),
        vec![
            vec!["a", "d", "g"],
            vec!["b", "e", "h"],
            vec!["c", "f", "i"]
        ]
    );
    let original = vec![
        vec![&1, &2, &3],
        vec![&4, &5, &6],
        vec![&7, &8, &9],
        vec![&10, &11, &12],
    ];
    assert_eq!(
        transpose(&original),
        vec![
            vec![&1, &4, &7, &10],
            vec![&2, &5, &8, &11],
            vec![&3, &6, &9, &12]
        ]
    );
}

#[test]
fn read_knob_table() {
    let table = KnobTable::new("id,me,qp,subme\n   0,1,2,3\n\n").unwrap();
    assert_eq!(table.names, vec!["id", "me", "qp", "subme"]);
    let correct = [("id", 0), ("me", 1), ("qp", 2), ("subme", 3)];
    assert_eq!(table.configurations[0].len(), correct.len());
    for (c, (name, value)) in correct.iter().enumerate() {
        assert_eq!(table.names[c], *name);
        assert_eq!(table.configurations[0][c], *value);
    }
}

#[test]
fn knob_table_errors() {
    assert_eq!(KnobTable::new("  \n ").err(), Some(TableError::Empty));
    assert_eq!(KnobTable::new("id,a\n0,x").err(), Some(TableError::BadRow(1)));
    assert_eq!(KnobTable::new("id,a\n0,1\n1").err(), Some(TableError::BadRow(2)));
    assert_eq!(KnobTable::new("id,a\n0,1\n\n1,2").err(), Some(TableError::BadRow(2)));
    assert_eq!(
        KnobTable::new("id,a\n0,18446744073709551616").err(),
        Some(TableError::BadRow(1))
    );
    let t = KnobTable::new("id,a\n0,+18446744073709551615\r\n1,0").unwrap();
    assert_eq!(t.configurations, vec![vec![0, u64::MAX], vec![1, 0]]);
    let header_only = KnobTable::new("id,a").unwrap();
    assert_eq!(header_only.configurations.len(), 0);
}

#[test]
fn regex_text() {
    let header = vec!["performance".to_string(), "powerConsumption".to_string()];
    let (names, idx) = objective_measures("performance / powerConsumption", &header).unwrap();
    assert_eq!(names, vec!["performance", "powerConsumption"]);
    assert_eq!(idx, vec![0, 1]);
    let header = vec!["id".to_string(), "time".to_string(), "iteration".to_string()];
    let (names, idx) = objective_measures("iteration * time", &header).unwrap();
    assert_eq!(names, vec!["iteration", "time"]);
    assert_eq!(idx, vec![2, 1]);
}

#[test]
fn objective_with_unknown_measure() {
    let header = vec!["id".to_string(), "performance".to_string()];
    assert_eq!(
        objective_measures("performance / energy", &header).err(),
        Some("energy".to_string())
    );
    let header = vec!["x".to_string(), "x".to_string()];
    assert_eq!(objective_measures("x + 2", &header).unwrap().1, vec![0]);
}

#[test]
fn get_active_model_measures() {
    // quality column of the incrementer profile
    let measures: Vec<Vec<f64>> = vec![vec![1.0], vec![1.0], vec![0.25], vec![0.25]];
    let knob_table = KnobTable::new(KNOB_TABLE_STRING).unwrap();
    let mut active_model = ActiveModel::new(measures, &knob_table);
    let keys: Vec<u64> = active_model.measures().iter().map(|m| order_key(m[0])).collect();
    let _ = active_model.sort_by_constraint(&keys);
    let ids: Vec<u64> = (0..4).map(|i| active_model.get_knob_settings(i)[0]).collect();
    assert_eq!(ids, vec![2, 3, 0, 1]);
    assert_eq!(active_model.measures()[0], vec![0.25]);
}

#[test]
fn sort_orders_keys_and_keeps_ties() {
    let knob_table = KnobTable::new("id\n0\n1\n2\n3\n4").unwrap();
    let mut model = ActiveModel::new(vec!['a', 'b', 'c', 'd', 'e'], &knob_table);
    let _ = model.sort_by_constraint(&vec![5, 1, 5, 0, 1]);
    assert_eq!(*model.measures(), vec!['d', 'b', 'e', 'a', 'c']);
}

#[test]
fn restrict_drops_unpermitted_rows() {
    let knob_table = KnobTable::new(KNOB_TABLE_STRING).unwrap();
    let mut model = ActiveModel::new(vec![10, 11, 12, 13], &knob_table);
    let knobs = vec![knob("step", vec![1, 4], 1), knob("threshold", vec![50000], 50000)];
    assert_eq!(model.restrict_model(&knobs), 2);
    assert_eq!(*model.measures(), vec![10, 12]);
    assert_eq!(*model.get_knob_settings(1), vec![2, 4, 50000]);
    assert_eq!(model.find_id(&knobs), Some(0));
}

#[test]
fn restrict_drops_rows_of_unknown_knobs() {
    let knob_table = KnobTable::new(KNOB_TABLE_STRING).unwrap();
    let mut model = ActiveModel::new(vec![10, 11, 12, 13], &knob_table);
    let knobs = vec![knob("step", vec![1, 4], 1)];
    assert_eq!(model.restrict_model(&knobs), 4);
    assert_eq!(model.len(), 0);
    assert_eq!(model.find_id(&knobs), None);
}

#[test]
fn find_id_matches_current_values() {
    let knob_table = KnobTable::new(KNOB_TABLE_STRING).unwrap();
    let model = ActiveModel::new(vec![0, 1, 2, 3], &knob_table);
    let knobs = vec![knob("threshold", vec![50000, 200000], 200000), knob("step", vec![1, 4], 4)];
    assert_eq!(model.find_id(&knobs), Some(3));
    let knobs = vec![knob("threshold", vec![50000], 7), knob("step", vec![1, 4], 4)];
    assert_eq!(model.find_id(&knobs), None);
}

#[test]
fn active_model_pairs_shortest() {
    let knob_table = KnobTable::new(KNOB_TABLE_STRING).unwrap();
    let model = ActiveModel::new(vec![7, 8], &knob_table);
    assert_eq!(model.len(), 2);
    assert_eq!(*model.get_knob_settings(1), vec![1, 1, 200000]);
    assert_eq!(model.knob_names(), &vec!["id", "step", "threshold"]);
}

#[test]
fn profile_space_enumerates_cartesian_order() {
    let knobs = vec![knob("threshold", vec![50000, 200000], 50000), knob("step", vec![1, 4], 1)];
    let table = KnobTable::profile_space(&knobs);
    assert_eq!(table.names, vec!["id", "step", "threshold"]);
    assert_eq!(
        table.configurations,
        vec![
            vec![0, 1, 50000],
            vec![1, 1, 200000],
            vec![2, 4, 50000],
            vec![3, 4, 200000]
        ]
    );
}

#[test]
fn profile_space_of_no_knobs_is_empty() {
    let table = KnobTable::profile_space(&vec![]);
    assert_eq!(table.names, vec!["id"]);
    assert_eq!(table.configurations.len(), 0);
    let knobs = vec![knob("a", vec![1, 2], 1), knob("b", vec![], 0)];
    assert_eq!(KnobTable::profile_space(&knobs).configurations.len(), 0);
}
