use grocerytracker::names::names_in_order;

#[test]
fn names_compare_by_code_point() {
    let s = |x: &str| x.to_string();
    assert!(names_in_order(&s("Acme"), &s("Zest")));
    assert!(!names_in_order(&s("Zest"), &s("Acme")));
    assert!(names_in_order(&s("Ac"), &s("Acme")));
    assert!(!names_in_order(&s("Acme"), &s("Ac")));
    assert!(names_in_order(&s("Acme"), &s("Acme")));
    assert!(names_in_order(&s(""), &s("")));
    assert!(names_in_order(&s("Zoo"), &s("apple")));
    assert!(names_in_order(&s("épicerie"), &s("épicerie2")));
}
