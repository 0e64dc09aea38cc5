use sqlquiz::page::{
    build_full_context, build_simple_context, intro_template_path, page_links_defined,
    question_template_path,
};
use sqlquiz::errors::MyError;
use sqlquiz::sql::{get_question_data_map, QuestionMap};

fn table(rows: &[&[&str]]) -> Vec<Vec<String>> {
    rows.iter().map(|r| r.iter().map(|s| s.to_string()).collect()).collect()
}

#[test]
fn simple_context() {
    let mp = get_question_data_map();
    let c = build_simple_context(&mp, "over", "1");
    assert_eq!(c.prev_q, "over/");
    assert_eq!(c.next_q, "over/2");
    assert_eq!(c.category, "over");
}

#[test]
fn links_defined() {
    let mp = get_question_data_map();
    assert!(page_links_defined(&mp, "over", "1"));
    assert!(page_links_defined(&mp, "rubbish", ""));
    assert!(!page_links_defined(&mp, "over", "2147483647"));
    assert!(!page_links_defined(&mp, "over", "-2147483648"));
    let empty = QuestionMap::new();
    assert!(!page_links_defined(&empty, "over", ""));
    assert!(page_links_defined(&empty, "intro", ""));
    assert!(page_links_defined(&empty, "over", "3"));
}

#[test]
fn full_context_for_a_correct_answer() {
    let mp = get_question_data_map();
    let user = table(&[&["a", "b"], &["1", "2"]]);
    let correct = table(&[&["x", "y"], &["1", "2"]]);
    let c = build_full_context(&mp, "SELECT RANK() OVER (order by w)", "ranking", "1", user.clone(), correct.clone()).unwrap();
    assert_eq!(c.heading, "Ordering");
    assert_eq!(c.keyword, "rank");
    assert!(c.used_correct_word);
    assert!(c.is_correct);
    assert_eq!(c.prev_q, "ranking/");
    assert_eq!(c.next_q, "ranking/2");
    assert_eq!(c.category, "ranking");
    assert_eq!(c.sql_to_run, "SELECT RANK() OVER (order by w)");
    assert_eq!(c.sql_to_run_result, user);
    assert_eq!(c.sql_correct_result, correct);
    assert!(c.keyword_help_link.contains("rank-transact-sql"));
    assert!(c.sql_correct.contains("rank() over (order by weight desc)"));
}

#[test]
fn full_context_for_a_wrong_answer() {
    let mp = get_question_data_map();
    let user = table(&[&["a"], &["1"]]);
    let correct = table(&[&["a"], &["2"]]);
    let c = build_full_context(&mp, "select 1", "grouping", "1", user, correct).unwrap();
    assert_eq!(c.keyword, "lagleadmin");
    assert!(!c.used_correct_word);
    assert!(!c.is_correct);
}

#[test]
fn full_context_with_no_user_table() {
    let mp = get_question_data_map();
    let c = build_full_context(&mp, "select", "intro", "0", vec![], vec![]).unwrap();
    assert!(!c.is_correct);
    assert!(!c.used_correct_word);
}

#[test]
fn full_context_for_a_missing_question() {
    let mp = get_question_data_map();
    assert!(matches!(
        build_full_context(&mp, "select 1", "over", "9", vec![], vec![]),
        Err(MyError::BadPath)
    ));
    assert!(matches!(
        build_full_context(&mp, "select 1", "rubbish", "0", vec![], vec![]),
        Err(MyError::BadPath)
    ));
}

#[test]
fn template_paths() {
    assert_eq!(question_template_path("over", "2"), "over/2.html.tera");
    assert_eq!(intro_template_path("over"), "over/index.html.tera");
}
