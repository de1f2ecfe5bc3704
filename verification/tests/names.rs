use walkabout::names::{visit_fn_name, write_fn_name, VisitConfig};
use walkabout::text::{decimal_text, is_uppercase, to_lowercase};

#[test]
fn camel_case_name_read_only() {
    let c = VisitConfig { mutable: false };
    assert_eq!(visit_fn_name(&c, "FooBar"), "visit_foo_bar");
}

#[test]
fn camel_case_name_mutating() {
    let c = VisitConfig { mutable: true };
    assert_eq!(visit_fn_name(&c, "FooBar"), "visit_foo_bar_mut");
}

#[test]
fn scoped_name_drops_qualifier() {
    let c = VisitConfig { mutable: false };
    assert_eq!(visit_fn_name(&c, "T::FooBar"), "visit_foo_bar");
    let m = VisitConfig { mutable: true };
    assert_eq!(visit_fn_name(&m, "T::FooBar"), "visit_foo_bar_mut");
}

#[test]
fn deeply_scoped_name_keeps_final_component() {
    let c = VisitConfig { mutable: false };
    assert_eq!(visit_fn_name(&c, "a::b::Expr"), "visit_expr");
    assert_eq!(visit_fn_name(&c, "::Expr"), "visit_expr");
}

#[test]
fn name_ending_in_scope_separator_has_empty_component() {
    let c = VisitConfig { mutable: false };
    assert_eq!(visit_fn_name(&c, "T::"), "visit");
    assert_eq!(visit_fn_name(&c, ""), "visit");
}

#[test]
fn single_colon_is_no_scope_separator() {
    let c = VisitConfig { mutable: false };
    assert_eq!(visit_fn_name(&c, "A:B"), "visit_a:_b");
}

#[test]
fn lower_case_name_gets_no_underscore() {
    let c = VisitConfig { mutable: false };
    assert_eq!(visit_fn_name(&c, "expr"), "visitexpr");
    assert_eq!(visit_fn_name(&c, "u8"), "visitu8");
}

#[test]
fn consecutive_capitals_each_get_an_underscore() {
    let c = VisitConfig { mutable: false };
    assert_eq!(visit_fn_name(&c, "SQLExpr"), "visit_s_q_l_expr");
}

#[test]
fn non_ascii_letters_stay_as_they_are() {
    let c = VisitConfig { mutable: false };
    assert_eq!(visit_fn_name(&c, "\u{c9}tatZ"), "visit\u{c9}tat_z");
}

#[test]
fn write_fn_name_appends_to_what_is_there() {
    let mut out = String::from("walk");
    write_fn_name(&mut out, "T::TableFactor");
    assert_eq!(out, "walk_table_factor");
    write_fn_name(&mut out, "X");
    assert_eq!(out, "walk_table_factor_x");
}

#[test]
fn same_name_gives_same_method_twice() {
    let c = VisitConfig { mutable: true };
    assert_eq!(visit_fn_name(&c, "Q::Statement"), visit_fn_name(&c, "Q::Statement"));
    assert_eq!(visit_fn_name(&c, "A::Statement"), visit_fn_name(&c, "B::Statement"));
}

#[test]
fn uppercase_letters_are_a_to_z_only() {
    assert!(is_uppercase('A'));
    assert!(is_uppercase('M'));
    assert!(is_uppercase('Z'));
    assert!(!is_uppercase('a'));
    assert!(!is_uppercase('@'));
    assert!(!is_uppercase('['));
    assert!(!is_uppercase('\u{c9}'));
    assert!(!is_uppercase('0'));
}

#[test]
fn lowercase_of_each_capital() {
    assert_eq!(to_lowercase('A'), 'a');
    assert_eq!(to_lowercase('Q'), 'q');
    assert_eq!(to_lowercase('Z'), 'z');
}

#[test]
fn decimal_text_of_small_and_large_numbers() {
    assert_eq!(decimal_text(0), "0");
    assert_eq!(decimal_text(7), "7");
    assert_eq!(decimal_text(10), "10");
    assert_eq!(decimal_text(109), "109");
    assert_eq!(decimal_text(12345), "12345");
    assert_eq!(decimal_text(usize::MAX), usize::MAX.to_string());
}
