use numbat::text::{
    contains_text, copy_groups, copy_names, group_at_most, same_text, sort_groups, sort_names, sorted_names,
    starts_with, text_at_most,
};

fn strings(names: &[&str]) -> Vec<String> {
    names.iter().map(|n| n.to_string()).collect()
}

const SAMPLES: [&str; 12] = ["", "a", "ab", "b", "B", "meter", "metre", "m", "é", "z", "元", "€"];

#[test]
fn the_order_of_texts_is_that_of_strings() {
    for a in SAMPLES {
        for b in SAMPLES {
            assert_eq!(text_at_most(a, b), a <= b, "{:?} {:?}", a, b);
            assert_eq!(same_text(a, b), a == b, "{:?} {:?}", a, b);
            assert_eq!(starts_with(a, b), a.starts_with(b), "{:?} {:?}", a, b);
        }
    }
}

#[test]
fn a_prefix_comes_first() {
    assert!(text_at_most("m", "meter"));
    assert!(!text_at_most("meter", "m"));
    assert!(text_at_most("meter", "meter"));
    assert!(text_at_most("", ""));
    assert!(text_at_most("z", "é"));
}

#[test]
fn sorting_names() {
    let mut names = strings(&["meter", "meter", "metre", "m", "", "é", "B"]);
    sort_names(&mut names);
    assert_eq!(names, strings(&["", "B", "m", "meter", "meter", "metre", "é"]));
    let mut none: Vec<String> = vec![];
    sort_names(&mut none);
    assert!(none.is_empty());
    let given = strings(&["b", "a"]);
    assert_eq!(sorted_names(&given), strings(&["a", "b"]));
    assert_eq!(given, strings(&["b", "a"]));
}

#[test]
fn sorting_agrees_with_the_standard_order() {
    let mut ours = strings(&SAMPLES);
    ours.extend(strings(&SAMPLES));
    let mut theirs = ours.clone();
    sort_names(&mut ours);
    theirs.sort();
    assert_eq!(ours, theirs);
}

#[test]
fn the_order_of_groups() {
    let a = strings(&["m", "meter"]);
    let b = strings(&["m", "metre"]);
    let c = strings(&["m"]);
    assert!(group_at_most(&a, &b));
    assert!(!group_at_most(&b, &a));
    assert!(group_at_most(&c, &a));
    assert!(!group_at_most(&a, &c));
    assert!(group_at_most(&a, &a));
    assert!(group_at_most(&vec![], &c));
}

#[test]
fn sorting_groups() {
    let mut groups = vec![strings(&["s", "second"]), strings(&["m", "metre"]), strings(&["m", "meter"]), vec![], strings(&["m"])];
    let mut theirs = groups.clone();
    sort_groups(&mut groups);
    theirs.sort();
    assert_eq!(groups, theirs);
    assert_eq!(groups[0], Vec::<String>::new());
    assert_eq!(groups[4], strings(&["s", "second"]));
}

#[test]
fn copies_and_membership() {
    let names = strings(&["a", "b"]);
    assert_eq!(copy_names(&names), names);
    assert!(contains_text(&names, "b"));
    assert!(!contains_text(&names, "c"));
    let groups = vec![names.clone(), vec![]];
    assert_eq!(copy_groups(&groups), groups);
}
