use sqlquiz::page::page_links_defined;
use sqlquiz::sql::{get_next_page, get_prev_page, get_question_data_map, get_sql_for_q, QuestionMap};

#[test]
fn test_get_prev() {
    let mp = &get_question_data_map();
    assert_eq!(get_prev_page(mp, "grouping", "6"), "grouping/5");
    assert_eq!(get_prev_page(mp, "grouping", ""), "ranking/4");
    assert_eq!(get_prev_page(mp, "grouping", "0"), "grouping/");
    assert_eq!(get_prev_page(mp, "rubbish", "0"), "intro/");
}

#[test]
fn test_get_next() {
    let mp = &get_question_data_map();
    assert_eq!(get_next_page(mp, "grouping", "2"), "grouping/3");
    assert_eq!(get_next_page(mp, "grouping", "6"), "other/");
    assert_eq!(get_next_page(mp, "grouping", ""), "grouping/0");
    assert_eq!(get_next_page(mp, "rubbish", "0"), "intro/");
}

#[test]
fn catalogue_has_every_category_with_its_questions() {
    let mp = get_question_data_map();
    let expected = [("intro", 1), ("over", 4), ("ranking", 5), ("grouping", 7), ("other", 3)];
    for (cat, n) in expected {
        assert_eq!(mp.get(cat).unwrap().len(), n, "{cat}");
    }
    assert!(mp.get("rubbish").is_none());
    let q = &mp.get("grouping").unwrap()[1];
    assert_eq!(q.2, "Compare to Row");
    assert_eq!(q.3, vec!["lag", "lead", "min"]);
    assert!(q.0.contains("lag(weight, 1)"));
}

#[test]
fn sql_for_question_by_number() {
    let mp = get_question_data_map();
    let q = get_sql_for_q(&mp, "over", "2").unwrap();
    assert_eq!(q.2, "Examining nearby rows");
    assert_eq!(q.3, vec!["preceding", "following"]);
    assert!(get_sql_for_q(&mp, "over", "4").is_none());
    assert!(get_sql_for_q(&mp, "nothing", "0").is_none());
}

#[test]
fn sql_for_question_unreadable_number_is_first() {
    let mp = get_question_data_map();
    assert_eq!(get_sql_for_q(&mp, "over", "").unwrap().2, "Running Totals");
    assert_eq!(get_sql_for_q(&mp, "over", "x1").unwrap().2, "Running Totals");
    assert_eq!(get_sql_for_q(&mp, "over", "-1").unwrap().2, "Running Totals");
    assert_eq!(get_sql_for_q(&mp, "over", "+3").unwrap().2, "Correct Running Total");
    assert_eq!(get_sql_for_q(&mp, "over", "003").unwrap().2, "Correct Running Total");
    assert_eq!(get_sql_for_q(&mp, "over", " 3").unwrap().2, "Running Totals");
}

#[test]
fn next_within_category_and_back() {
    let mp = get_question_data_map();
    assert_eq!(get_next_page(&mp, "over", "1"), "over/2");
    assert_eq!(get_prev_page(&mp, "over", "2"), "over/1");
    assert_eq!(get_next_page(&mp, "ranking", "3"), "ranking/4");
    assert_eq!(get_prev_page(&mp, "ranking", "4"), "ranking/3");
}

#[test]
fn prev_of_question_one_is_the_introduction() {
    let mp = get_question_data_map();
    assert_eq!(get_next_page(&mp, "over", "0"), "over/1");
    assert_eq!(get_prev_page(&mp, "over", "1"), "over/");
}

#[test]
fn introduction_and_first_question() {
    let mp = get_question_data_map();
    assert_eq!(get_next_page(&mp, "ranking", ""), "ranking/0");
    assert_eq!(get_prev_page(&mp, "ranking", "0"), "ranking/");
}

#[test]
fn between_categories() {
    let mp = get_question_data_map();
    assert_eq!(get_next_page(&mp, "intro", "0"), "over/");
    assert_eq!(get_prev_page(&mp, "over", ""), "intro/0");
    assert_eq!(get_next_page(&mp, "over", "3"), "ranking/");
    assert_eq!(get_prev_page(&mp, "ranking", ""), "over/3");
}

#[test]
fn ends_of_the_tutorial() {
    let mp = get_question_data_map();
    assert_eq!(get_prev_page(&mp, "intro", ""), "");
    assert_eq!(get_next_page(&mp, "other", "2"), "");
}

#[test]
fn walking_forward_visits_every_page_in_order() {
    let mp = get_question_data_map();
    let mut cat = String::from("intro");
    let mut num = String::new();
    let mut visited = vec![];
    loop {
        let next = get_next_page(&mp, &cat, &num);
        if next.is_empty() {
            break;
        }
        visited.push(next.clone());
        let (c, n) = next.split_once('/').unwrap();
        cat = c.to_string();
        num = n.to_string();
    }
    // Four more introductions and the twenty questions.
    assert_eq!(visited.len(), 4 + 20);
    assert_eq!(visited[0], "intro/0");
    assert_eq!(visited[1], "over/");
    assert_eq!(visited.last().unwrap(), "other/2");
}

#[test]
fn unknown_category_links() {
    let mp = get_question_data_map();
    assert_eq!(get_prev_page(&mp, "rubbish", ""), "intro/0");
    assert_eq!(get_next_page(&mp, "rubbish", ""), "intro/");
    assert_eq!(get_prev_page(&mp, "rubbish", "5"), "intro/");
}

#[test]
fn odd_numbers_in_links() {
    let mp = get_question_data_map();
    // "-6" reads as -6; the next number, -5, names question 0 of the category.
    assert_eq!(get_next_page(&mp, "over", "-6"), "over/-5");
    // "-1" reads as -1, like a missing number.
    assert_eq!(get_prev_page(&mp, "over", "-1"), "intro/0");
    assert_eq!(get_next_page(&mp, "over", "-1"), "over/0");
    assert_eq!(get_next_page(&mp, "over", "+1"), "over/2");
    assert_eq!(get_prev_page(&mp, "over", "99"), "over/");
    assert_eq!(get_next_page(&mp, "over", "2147483646"), "ranking/");
}

#[test]
fn map_insert_replaces_and_adds() {
    let mut m = QuestionMap::new();
    assert!(m.get("a").is_none());
    m.insert("a", vec![("s1", "h1", "t1", vec!["k1"])]);
    m.insert("b", vec![]);
    m.insert("a", vec![("s2", "h2", "t2", vec![]), ("s3", "h3", "t3", vec![])]);
    assert_eq!(m.get("a").unwrap().len(), 2);
    assert_eq!(m.get("a").unwrap()[0].0, "s2");
    assert_eq!(m.get("b").unwrap().len(), 0);
}

#[test]
fn prev_from_introduction_after_empty_category() {
    let mut m = QuestionMap::new();
    m.insert("intro", vec![("s", "h", "t", vec![])]);
    m.insert("over", vec![("s", "h", "t", vec![]), ("s", "h", "t", vec![])]);
    assert_eq!(get_prev_page(&m, "ranking", ""), "over/1");
    assert_eq!(get_next_page(&m, "ranking", ""), "grouping/");
}

#[test]
fn catalogue_links_are_defined_for_ordinary_numbers() {
    let mp = get_question_data_map();
    for cat in ["intro", "over", "ranking", "grouping", "other", "rubbish"] {
        for num in ["", "0", "3", "-1", "abc"] {
            assert!(page_links_defined(&mp, cat, num), "{cat}/{num}");
        }
    }
}
