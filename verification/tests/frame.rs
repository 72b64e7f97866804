use bops::zeroflops_wasm::dataframe::DataFrame;

fn frame() -> DataFrame<Vec<i32>> {
    DataFrame {
        names: vec![String::from("name"), String::from("score"), String::from("score")],
        columns: vec![vec![1], vec![2], vec![3]],
    }
}

#[test]
fn columns_are_found_by_first_name() {
    let f = frame();
    assert_eq!(f.column("score"), Some(&vec![2]));
    assert_eq!(f.column("name"), Some(&vec![1]));
    assert_eq!(f.column("wins"), None);
    let short = DataFrame::<Vec<i32>> {
        names: vec![String::from("name")],
        columns: Vec::new(),
    };
    assert_eq!(short.column("name"), None);
}

#[test]
fn dropping_a_column_keeps_only_its_name() {
    let mut f = frame();
    assert_eq!(f.drop_in_place("wins"), None);
    assert_eq!(f.names.len(), 3);
    assert_eq!(f.drop_in_place("score"), Some(vec![2]));
    assert_eq!(f.names, vec![String::from("score")]);
    assert_eq!(f.columns, vec![vec![1], vec![3]]);
}
