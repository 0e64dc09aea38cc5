//! What a question page shows: the links around it, the question, and how the
//! visitor's SQL compares with the model answer.

use vstd::prelude::*;

use crate::decimal::parse_i32;
use crate::errors::MyError;
use crate::sql::{
    category_order, category_position, get_next_page, get_prev_page, get_sql_for_q,
    next_page_defined, number_index, prev_page_defined, question_at, spec_next_page,
    spec_prev_page, QuestionMap, QuestionView,
};
use crate::text::{
    concat_all, concat_strs, is_substring, lowercase, str_contains, str_eq, to_lowercase,
};

verus! {

/// The links of a page: to the page before, to the page after, and the
/// page's category.
pub struct SimpleContext {
    pub prev_q: String,
    pub next_q: String,
    pub category: String,
}

/// Whether the links of the page that a category and a number name can be
/// worked out (the conditions of `get_next_page` and `get_prev_page`).
pub fn page_links_defined(data_mp: &QuestionMap, category: &str, sid: &str) -> (r: bool)
    ensures
        r == (next_page_defined(sid@) && prev_page_defined(data_mp@, category@, sid@)),
{
    let parsed = parse_i32(sid);
    let bounded = match parsed {
        Some(v) => v != i32::MAX && v != i32::MIN,
        None => true,
    };
    if !bounded {
        return false;
    }
    let id: i32 = match parsed {
        Some(v) => v,
        None => -1,
    };
    if id != -1 {
        return true;
    }
    // The page before an introduction is the previous category's last question.
    if str_eq(category, "intro") {
        return true;
    }
    let prev = previous_category(category);
    match data_mp.get(prev) {
        Some(qs) => qs.len() > 0,
        None => false,
    }
}

/// The category before the given one in the tutorial's order (before a
/// category outside the order: the first category).
fn previous_category(category: &str) -> (r: &'static str)
    requires
        category_position(category@) != Some(0int),
    ensures
        ({
            let idx = match category_position(category@) {
                Some(i) => i,
                None => 1,
            };
            r@ == category_order()[idx - 1]
        }),
{
    if str_eq(category, "over") {
        "intro"
    } else if str_eq(category, "ranking") {
        "over"
    } else if str_eq(category, "grouping") {
        "ranking"
    } else if str_eq(category, "other") {
        "grouping"
    } else {
        "intro"
    }
}

/// The links of the page that a category and a question number name.
pub fn build_simple_context(data_mp: &QuestionMap, type_as_str: &str, num_as_str: &str) -> (r:
    SimpleContext)
    requires
        next_page_defined(num_as_str@),
        prev_page_defined(data_mp@, type_as_str@, num_as_str@),
    ensures
        r.prev_q@ == spec_prev_page(data_mp@, type_as_str@, num_as_str@),
        r.next_q@ == spec_next_page(data_mp@, type_as_str@, num_as_str@),
        r.category@ == type_as_str@,
{
    SimpleContext {
        prev_q: get_prev_page(data_mp, type_as_str, num_as_str),
        next_q: get_next_page(data_mp, type_as_str, num_as_str),
        category: String::from_str(type_as_str),
    }
}

/// Everything a question page shows.
pub struct FullContext {
    pub prev_q: String,
    pub next_q: String,
    pub category: String,
    pub sql_correct: String,
    pub heading: String,
    pub keyword_help_link: String,
    pub keyword: String,
    pub used_correct_word: bool,
    pub sql_correct_result: Vec<Vec<String>>,
    pub is_correct: bool,
    pub sql_to_run: String,
    pub sql_to_run_result: Vec<Vec<String>>,
}

/// Some keyword occurs in the (lower-cased) SQL.
pub open spec fn uses_some_keyword(keywords: Seq<Seq<char>>, sql: Seq<char>) -> bool {
    exists|i: int| 0 <= i < keywords.len() && is_substring(#[trigger] keywords[i], sql)
}

/// The visitor's answer counts as correct when it has a table and its rows,
/// after the header row, are those of the model answer.
pub open spec fn results_agree(user: Seq<Seq<Seq<char>>>, correct: Seq<Seq<Seq<char>>>) -> bool {
    user.len() > 0 && user.skip(1) == correct.skip(1)
}

/// What `build_full_context` needs to avoid slicing an empty model answer:
/// when the question exists and the visitor's table is not empty, the model
/// answer's is not empty either.
pub open spec fn full_context_defined(
    m: Map<Seq<char>, Seq<QuestionView>>,
    category: Seq<char>,
    number: Seq<char>,
    user: Seq<Seq<Seq<char>>>,
    correct: Seq<Seq<Seq<char>>>,
) -> bool {
    &&& next_page_defined(number)
    &&& prev_page_defined(m, category, number)
    &&& (question_at(m, category, number_index(number)) is Some && user.len() > 0) ==> correct.len()
        > 0
}


/// A visitor's answer is judged correct exactly when it has a table, that
/// table has as many rows as the model answer's, and every row after the
/// header is the model answer's row at the same place. (A visitor's table
/// beside an empty model answer is left out: the page cannot be built then.)
pub proof fn lemma_correct_means_same_rows(user: Seq<Seq<Seq<char>>>, correct: Seq<Seq<Seq<char>>>)
    requires
        user.len() > 0 ==> correct.len() > 0,
    ensures
        results_agree(user, correct) <==> {
            &&& user.len() > 0
            &&& user.len() == correct.len()
            &&& forall|k: int| 1 <= k < user.len() ==> user[k] == correct[k]
        },
        results_agree(user, correct) ==> user.len() == correct.len(),
{
    if user.len() > 0 && user.len() == correct.len() && (forall|k: int|
        1 <= k < user.len() ==> user[k] == correct[k]) {
        assert(user.skip(1) =~= correct.skip(1));
    }
    if results_agree(user, correct) {
        assert(user.skip(1).len() == correct.skip(1).len());
        assert(user.len() == correct.len());
        assert forall|k: int| 1 <= k < user.len() implies user[k] == correct[k] by {
            assert(user.skip(1)[k - 1] == correct.skip(1)[k - 1]);
        }
    }
}

/// No keyword is used when there are none; one keyword is used exactly when
/// it occurs in the SQL; and keywords from two lists are used exactly when
/// some keyword of either list is.
pub proof fn lemma_keyword_use(a: Seq<Seq<char>>, b: Seq<Seq<char>>, k: Seq<char>, sql: Seq<char>)
    ensures
        !uses_some_keyword(Seq::empty(), sql),
        uses_some_keyword(seq![k], sql) == is_substring(k, sql),
        uses_some_keyword(a + b, sql) == (uses_some_keyword(a, sql) || uses_some_keyword(b, sql)),
        forall|i: int| 0 <= i < a.len() && is_substring(a[i], sql) ==> uses_some_keyword(a, sql),
{
    assert(seq![k][0] == k);
    let ab = a + b;
    if uses_some_keyword(ab, sql) {
        let i = choose|i: int| 0 <= i < ab.len() && is_substring(#[trigger] ab[i], sql);
        if i < a.len() {
            assert(ab[i] == a[i]);
        } else {
            assert(ab[i] == b[i - a.len()]);
        }
    }
    if uses_some_keyword(a, sql) {
        let i = choose|i: int| 0 <= i < a.len() && is_substring(#[trigger] a[i], sql);
        assert(ab[i] == a[i]);
    }
    if uses_some_keyword(b, sql) {
        let i = choose|i: int| 0 <= i < b.len() && is_substring(#[trigger] b[i], sql);
        assert(ab[a.len() + i] == b[i]);
    }
    assert forall|i: int| 0 <= i < a.len() && is_substring(a[i], sql) implies uses_some_keyword(
        a,
        sql,
    ) by {
        assert(is_substring(a[i], sql));
    }
}

/// Whether the rows of two tables agree from the second row on.
#[verifier::loop_isolation(false)]
fn rows_agree_after_header(a: &Vec<Vec<String>>, b: &Vec<Vec<String>>) -> (r: bool)
    requires
        a.len() > 0,
        b.len() > 0,
    ensures
        r == (a.deep_view().skip(1) == b.deep_view().skip(1)),
{
    let ghost av = a.deep_view().skip(1);
    let ghost bv = b.deep_view().skip(1);
    if a.len() != b.len() {
        assert(av.len() != bv.len());
        return false;
    }
    let n = a.len();
    let mut i: usize = 1;
    while i < n
        invariant
            1 <= i <= n,
            n == a.len(),
            n == b.len(),
            av == a.deep_view().skip(1),
            bv == b.deep_view().skip(1),
            forall|k: int| 0 <= k < i - 1 ==> av[k] == bv[k],
        decreases n - i,
    {
        let ra = &a[i];
        let rb = &b[i];
        assert(av[i - 1] == ra.deep_view());
        assert(bv[i - 1] == rb.deep_view());
        if ra.len() != rb.len() {
            assert(av[i - 1].len() != bv[i - 1].len());
            return false;
        }
        let m = ra.len();
        let mut j: usize = 0;
        while j < m
            invariant
                j <= m,
                m == ra.len(),
                m == rb.len(),
                forall|k: int| 0 <= k < j ==> ra[k]@ == rb[k]@,
            decreases m - j,
        {
            if !(ra[j] == rb[j]) {
                assert(ra.deep_view()[j as int] != rb.deep_view()[j as int]);
                assert(av[i - 1] != bv[i - 1]);
                return false;
            }
            j = j + 1;
        }
        assert(ra.deep_view() =~= rb.deep_view());
        i = i + 1;
    }
    assert(av =~= bv);
    true
}

/// Whether any keyword occurs in the text.
fn any_keyword_in(keywords: &Vec<&str>, text: &str) -> (r: bool)
    ensures
        r == uses_some_keyword(keywords@.map_values(|k: &str| k@), text@),
{
    let ghost kv = keywords@.map_values(|k: &str| k@);
    let n = keywords.len();
    let mut i: usize = 0;
    while i < n
        invariant
            i <= n,
            n == keywords.len(),
            kv == keywords@.map_values(|k: &str| k@),
            forall|j: int| 0 <= j < i ==> !is_substring(#[trigger] kv[j], text@),
        decreases n - i,
    {
        if str_contains(text, keywords[i]) {
            assert(kv[i as int] == keywords@[i as int]@);
            return true;
        }
        i = i + 1;
    }
    false
}

/// Builds what a question page shows from the catalogue, the visitor's SQL,
/// the table it gave, and the table the question's model SQL gave; the error
/// `BadPath` when the category and number name no question.
pub fn build_full_context(
    data_mp: &QuestionMap,
    sql_from_user: &str,
    type_as_str: &str,
    num_as_str: &str,
    sql_user_result: Vec<Vec<String>>,
    sql_correct_result: Vec<Vec<String>>,
) -> (r: Result<FullContext, MyError>)
    requires
        full_context_defined(
            data_mp@,
            type_as_str@,
            num_as_str@,
            sql_user_result.deep_view(),
            sql_correct_result.deep_view(),
        ),
    ensures
        r is Err <==> question_at(data_mp@, type_as_str@, number_index(num_as_str@)) is None,
        r matches Err(e) ==> e is BadPath,
        r matches Ok(c) ==> {
            let q = question_at(data_mp@, type_as_str@, number_index(num_as_str@))->0;
            &&& c.prev_q@ == spec_prev_page(data_mp@, type_as_str@, num_as_str@)
            &&& c.next_q@ == spec_next_page(data_mp@, type_as_str@, num_as_str@)
            &&& c.category@ == type_as_str@
            &&& c.sql_correct@ == q.0
            &&& c.keyword_help_link@ == q.1
            &&& c.heading@ == q.2
            &&& c.keyword@ == concat_all(q.3)
            &&& c.used_correct_word == uses_some_keyword(q.3, lowercase(sql_from_user@))
            &&& c.sql_correct_result.deep_view() == sql_correct_result.deep_view()
            &&& c.is_correct == results_agree(
                sql_user_result.deep_view(),
                sql_correct_result.deep_view(),
            )
            &&& c.sql_to_run@ == sql_from_user@
            &&& c.sql_to_run_result.deep_view() == sql_user_result.deep_view()
        },
{
    let simple = build_simple_context(data_mp, type_as_str, num_as_str);
    let data = get_sql_for_q(data_mp, type_as_str, num_as_str);
    match data {
        Some(question) => {
            let keys = concat_strs(&question.3);
            let lowered = to_lowercase(sql_from_user);
            let used_correct_word = any_keyword_in(&question.3, lowered.as_str());
            let is_correct = if sql_user_result.len() > 0 {
                rows_agree_after_header(&sql_user_result, &sql_correct_result)
            } else {
                false
            };
            Ok(
                FullContext {
                    prev_q: simple.prev_q,
                    next_q: simple.next_q,
                    category: simple.category,
                    sql_correct: String::from_str(question.0),
                    heading: String::from_str(question.2),
                    keyword_help_link: String::from_str(question.1),
                    keyword: keys,
                    used_correct_word,
                    sql_correct_result,
                    is_correct,
                    sql_to_run: String::from_str(sql_from_user),
                    sql_to_run_result: sql_user_result,
                },
            )
        },
        None => Err(MyError::BadPath),
    }
}

/// The template of a question page: `<category>/<number>.html.tera`.
pub fn question_template_path(type_as_str: &str, num_as_str: &str) -> (r: String)
    ensures
        r@ == type_as_str@ + "/"@ + num_as_str@ + ".html.tera"@,
{
    let mut s = String::from_str(type_as_str);
    s.append("/");
    s.append(num_as_str);
    s.append(".html.tera");
    s
}

/// The template of a category's introduction: `<category>/index.html.tera`.
pub fn intro_template_path(type_as_str: &str) -> (r: String)
    ensures
        r@ == type_as_str@ + "/index.html.tera"@,
{
    let mut s = String::from_str(type_as_str);
    s.append("/index.html.tera");
    s
}

} // verus!
