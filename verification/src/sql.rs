//! The question catalogue and the navigation between question pages.
//!
//! Questions are grouped by category; a page is named by a category and a
//! question number ("over/2"), or by a category alone for the category's
//! introduction ("over/").

use vstd::prelude::*;

use crate::decimal::{
    i64_to_string, int_to_decimal, lemma_parse_i32_of_decimal,
    lemma_parse_usize_of_decimal, nat_to_decimal, parse_i32, parse_i32_or, parse_usize,
    spec_parse_i32, spec_parse_usize, u64_to_string,
};
use crate::text::str_eq;

verus! {

// The model SQL of each question, a page of help on the keyword it
// practises, and its title.
pub const INTRO_0_SQL: &'static str = "
select
 age, sum(weight) as total_weight
from cats group by age having sum(weight) > 12 order by age";
pub const INTRO_0_HELP: &'static str = "https://docs.microsoft.com/en-us/sql/t-sql/queries/select-group-by-transact-sql#d-use-a-group-by-clause-with-a-having-clause";

pub const OVER_0_SQL: &'static str = "select name, sum(weight)
over (order by name) as running_total_weight
from cats order by name";
pub const OVER_0_HELP: &'static str = "https://docs.microsoft.com/en-us/sql/t-sql/queries/select-over-clause-transact-sql#b-using-the-over-clause-with-aggregate-functions";

pub const OVER_1_SQL: &'static str = "
select name, breed,
sum(weight) over (partition by breed order by name) as running_total_weight
from cats ";
pub const OVER_1_HELP: &'static str = "https://docs.microsoft.com/en-us/sql/t-sql/queries/select-over-clause-transact-sql#b-using-the-over-clause-with-aggregate-functions";

pub const OVER_2_SQL: &'static str = "
select name, weight,
avg(weight) over (order by weight ROWS between 1 preceding and 1 following) as average_weight
from cats order by weight";
pub const OVER_2_HELP: &'static str =
    "https://docs.microsoft.com/en-us/sql/t-sql/queries/select-over-clause-transact-sql#arguments";

pub const OVER_3_SQL: &'static str = "
select name,
sum(weight) over (order by weight DESC ROWS between unbounded preceding and current row) as running_total_weight
from cats order by running_total_weight";
pub const OVER_3_HELP: &'static str =
    "https://docs.microsoft.com/en-us/sql/t-sql/queries/select-over-clause-transact-sql#arguments";

pub const RANKINGS_0_SQL: &'static str = "
select row_number() over (order by color,name) as unique_number,
name, color
from cats";
pub const RANKINGS_0_HELP: &'static str = "https://docs.microsoft.com/en-us/sql/t-sql/functions/row-number-transact-sql#b-returning-the-row-number-for-salespeople";

pub const RANKINGS_1_SQL: &'static str = "
select
rank() over (order by weight desc) as ranking,
weight, name
 from cats
 order by ranking, name";
pub const RANKINGS_1_HELP: &'static str = "https://docs.microsoft.com/en-us/sql/t-sql/functions/rank-transact-sql#a-ranking-rows-within-a-partition";

pub const RANKINGS_2_SQL: &'static str = "
select
dense_rank() over (order by age DESC) as r, name,age
 from cats order by r, name";
pub const RANKINGS_2_HELP: &'static str =
    "https://docs.microsoft.com/en-us/sql/t-sql/functions/dense-rank-transact-sql#examples";

pub const RANKINGS_3_SQL: &'static str = "
select name, weight,
percent_rank() over (order by weight) * 100 as percent
from cats order by weight";
pub const RANKINGS_3_HELP: &'static str =
    "https://docs.microsoft.com/en-us/sql/t-sql/functions/percent-rank-transact-sql";

pub const RANKINGS_4_SQL: &'static str = "
select name, weight,
cast(cume_dist() over (order by weight) * 100 as integer) as percent
from cats order by weight";
pub const RANKINGS_4_HELP: &'static str =
    "https://docs.microsoft.com/en-us/sql/t-sql/functions/cume-dist-transact-sql";

pub const GROUPINGS_0_SQL: &'static str = "
select
 name, weight, ntile(4) over ( order by weight) as weight_quartile
from  cats
order by weight
";
pub const GROUPINGS_0_HELP: &'static str =
    "https://docs.microsoft.com/en-us/sql/t-sql/functions/ntile-transact-sql#examples";

pub const GROUPINGS_1_SQL: &'static str = "
select name, weight,
   coalesce(weight - lag(weight, 1) over (order by weight), 0) as weight_to_lose
FROM cats order by weight";
pub const GROUPINGS_1_HELP: &'static str =
    "https://docs.microsoft.com/en-us/sql/t-sql/functions/lag-transact-sql#examples";

pub const GROUPINGS_2_SQL: &'static str = "
    select name, breed, weight,
coalesce(weight - lag(weight, 1) over (partition by breed order by weight), 0) as weight_to_lose
from cats order by weight, name ";
pub const GROUPINGS_2_HELP: &'static str =
    "https://docs.microsoft.com/en-us/sql/t-sql/functions/lag-transact-sql#examples";

pub const GROUPINGS_3_SQL: &'static str = "
select name, color,
first_value(weight) over (partition by color order by weight) as weight_by_color
from cats order by color, name";
pub const GROUPINGS_3_HELP: &'static str =
    "https://docs.microsoft.com/en-us/sql/t-sql/functions/first-value-transact-sql#examples";

pub const GROUPINGS_4_SQL: &'static str = "
select name, weight, breed,
coalesce(cast(lead(weight, 1) over (partition by breed order by weight) as varchar), 'fattest cat') as next_heaviest
from cats order by weight";
pub const GROUPINGS_4_HELP: &'static str =
    "https://docs.microsoft.com/en-us/sql/t-sql/functions/lead-transact-sql#examples";

pub const GROUPINGS_5_SQL: &'static str = "
select name, weight,
coalesce(nth_value(weight, 4) over (order by weight), 99.9) as imagined_weight
from cats order by weight";
pub const GROUPINGS_5_HELP: &'static str =
    "https://docs.oracle.com/cloud/latest/db112/SQLRF/functions114.htm#SQLRF30031";

pub const GROUPINGS_6_SQL: &'static str = "
select distinct(breed),
nth_value(weight, 2) over (
    partition by breed order by weight RANGE BETWEEN UNBOUNDED PRECEDING AND UNBOUNDED FOLLOWING
) as imagined_weight
from cats order by breed;";
pub const GROUPINGS_6_HELP: &'static str =
    "https://docs.oracle.com/cloud/latest/db112/SQLRF/functions114.htm#SQLRF30031";

pub const OTHER_0_SQL: &'static str = "
select name, weight,
       ntile(2) over ntile_window as by_half,
       ntile(3) over ntile_window as thirds,
       ntile(4) over ntile_window as quart
              from cats
              window ntile_window AS
                       ( ORDER BY weight)
     order by weight, name";
pub const OTHER_0_HELP: &'static str = "http://dcx.sap.com/1200/en/dbreference/window-statement.html";

pub const OTHER_1_SQL: &'static str = "
select color,
array_agg(name) as names
from cats group by color
order by color desc";
pub const OTHER_1_HELP: &'static str = "https://lorenstewart.me/2017/12/03/postgresqls-array_agg-function/";

pub const OTHER_2_SQL: &'static str = "
select breed,
avg(weight) as average_weight,
avg(weight) filter (where age > 1) average_old_weight
from cats group by breed order by breed";
pub const OTHER_2_HELP: &'static str = "https://modern-sql.com/feature/filter";

pub const INTRO_0_TITLE: &'static str = "Refresher on Aggregates";
pub const OVER_0_TITLE: &'static str = "Running Totals";
pub const OVER_1_TITLE: &'static str = "Partitioned Running Totals";
pub const OVER_2_TITLE: &'static str = "Examining nearby rows";
pub const OVER_3_TITLE: &'static str = "Correct Running Total";
pub const RANKINGS_0_TITLE: &'static str = "Unique Numbers";
pub const RANKINGS_1_TITLE: &'static str = "Ordering";
pub const RANKINGS_2_TITLE: &'static str = "Further Ordering";
pub const RANKINGS_3_TITLE: &'static str = "Percentages";
pub const RANKINGS_4_TITLE: &'static str = "Percentiles";
pub const GROUPINGS_0_TITLE: &'static str = "Quartiles";
pub const GROUPINGS_1_TITLE: &'static str = "Compare to Row";
pub const GROUPINGS_2_TITLE: &'static str = "Compare to Row Part 2";
pub const GROUPINGS_3_TITLE: &'static str = "First of each Group";
pub const GROUPINGS_4_TITLE: &'static str = "More Row Comparisons";
pub const GROUPINGS_5_TITLE: &'static str = "Special Case Grouping";
pub const GROUPINGS_6_TITLE: &'static str = "More Grouping";
pub const OTHER_0_TITLE: &'static str = "Using Window Clause";
pub const OTHER_1_TITLE: &'static str = "Aggregating data";
pub const OTHER_2_TITLE: &'static str = "Limiting Large Results";


/// A question: its model SQL, a link to help on the keyword it practises,
/// its title, and the keywords that a good answer uses.
pub type Question<'a> = (&'a str, &'a str, &'a str, Vec<&'a str>);

/// A question as plain values.
pub type QuestionView = (Seq<char>, Seq<char>, Seq<char>, Seq<Seq<char>>);

pub open spec fn question_view<'a>(q: Question<'a>) -> QuestionView {
    (q.0@, q.1@, q.2@, q.3@.map_values(|k: &'a str| k@))
}

pub open spec fn questions_view<'a>(qs: Seq<Question<'a>>) -> Seq<QuestionView> {
    qs.map_values(|q: Question<'a>| question_view(q))
}

type Entry<'a> = (&'a str, Vec<Question<'a>>);

spec fn entry_key<'a>(e: Seq<Entry<'a>>, i: int) -> Seq<char> {
    e[i].0@
}

spec fn keys_distinct<'a>(e: Seq<Entry<'a>>) -> bool {
    forall|i: int, j: int|
        0 <= i < e.len() && 0 <= j < e.len() && i != j ==> #[trigger] entry_key(e, i)
            != #[trigger] entry_key(e, j)
}

spec fn has_key<'a>(e: Seq<Entry<'a>>, k: Seq<char>) -> bool {
    exists|i: int| 0 <= i < e.len() && #[trigger] entry_key(e, i) == k
}

spec fn key_index<'a>(e: Seq<Entry<'a>>, k: Seq<char>) -> int {
    choose|i: int| 0 <= i < e.len() && #[trigger] entry_key(e, i) == k
}

spec fn entries_view<'a>(e: Seq<Entry<'a>>) -> Map<Seq<char>, Seq<QuestionView>> {
    Map::new(|k: Seq<char>| has_key(e, k), |k: Seq<char>| questions_view(e[key_index(e, k)].1@))
}

proof fn lemma_entry_lookup<'a>(e: Seq<Entry<'a>>, i: int)
    requires
        keys_distinct(e),
        0 <= i < e.len(),
    ensures
        entries_view(e).contains_key(entry_key(e, i)),
        entries_view(e)[entry_key(e, i)] == questions_view(e[i].1@),
{
    let k = entry_key(e, i);
    assert(has_key(e, k));
    let j = key_index(e, k);
    assert(entry_key(e, j) == k);
    assert(j == i);
}

/// The questions of each category, keyed by the category's name; no name
/// occurs twice.
pub struct QuestionMap<'a> {
    entries: Vec<Entry<'a>>,
}

impl<'a> View for QuestionMap<'a> {
    type V = Map<Seq<char>, Seq<QuestionView>>;

    closed spec fn view(&self) -> Map<Seq<char>, Seq<QuestionView>> {
        entries_view(self.entries@)
    }
}

impl<'a> QuestionMap<'a> {
    #[verifier::type_invariant]
    closed spec fn wf(self) -> bool {
        keys_distinct(self.entries@)
    }

    /// An empty map.
    pub fn new() -> (r: Self)
        ensures
            r@ == Map::<Seq<char>, Seq<QuestionView>>::empty(),
    {
        let r = QuestionMap { entries: Vec::new() };
        assert(r@ =~= Map::<Seq<char>, Seq<QuestionView>>::empty());
        r
    }

    /// The questions of a category, if the map has it.
    pub fn get(&self, key: &str) -> (r: Option<&Vec<Question<'a>>>)
        ensures
            match r {
                Some(qs) => self@.contains_key(key@) && self@[key@] == questions_view(qs@),
                None => !self@.contains_key(key@),
            },
    {
        proof {
            use_type_invariant(self);
        }
        let n = self.entries.len();
        let mut i: usize = 0;
        while i < n
            invariant
                i <= n,
                n == self.entries@.len(),
                keys_distinct(self.entries@),
                forall|j: int| 0 <= j < i ==> #[trigger] entry_key(self.entries@, j) != key@,
            decreases n - i,
        {
            if str_eq(self.entries[i].0, key) {
                proof {
                    lemma_entry_lookup(self.entries@, i as int);
                }
                return Some(&self.entries[i].1);
            }
            i = i + 1;
        }
        assert(!has_key(self.entries@, key@));
        None
    }

    /// Sets the questions of a category, replacing those it had.
    pub fn insert(&mut self, key: &'a str, questions: Vec<Question<'a>>)
        ensures
            final(self)@ == old(self)@.insert(key@, questions_view(questions@)),
    {
        proof {
            use_type_invariant(&*self);
        }
        let ghost old_entries = self.entries@;
        let ghost new_value = questions_view(questions@);
        let mut entries: Vec<Entry<'a>> = Vec::new();
        std::mem::swap(&mut entries, &mut self.entries);
        assert(entries@ == old_entries);
        let n = entries.len();
        let mut i: usize = 0;
        while i < n
            invariant
                i <= n,
                n == entries@.len(),
                entries@ == old_entries,
                forall|j: int| 0 <= j < i ==> #[trigger] entry_key(old_entries, j) != key@,
            ensures
                i <= n,
                i < n ==> entry_key(old_entries, i as int) == key@,
                forall|j: int| 0 <= j < i ==> #[trigger] entry_key(old_entries, j) != key@,
            decreases n - i,
        {
            if str_eq(entries[i].0, key) {
                break;
            }
            i = i + 1;
        }
        if i < n {
            entries.set(i, (key, questions));
            proof {
                let e = entries@;
                assert forall|a: int| 0 <= a < e.len() implies #[trigger] entry_key(e, a)
                    == entry_key(old_entries, a) by {}
                assert forall|a: int, b: int|
                    0 <= a < e.len() && 0 <= b < e.len() && a != b implies #[trigger] entry_key(
                    e,
                    a,
                ) != #[trigger] entry_key(e, b) by {
                    assert(entry_key(e, a) == entry_key(old_entries, a));
                    assert(entry_key(e, b) == entry_key(old_entries, b));
                }
                assert forall|k: Seq<char>| #[trigger]
                    entries_view(e).contains_key(k) == entries_view(old_entries).insert(
                        key@,
                        new_value,
                    ).contains_key(k) by {
                    if has_key(e, k) {
                        let j = key_index(e, k);
                        assert(entry_key(old_entries, j) == entry_key(e, j));
                    }
                    if has_key(old_entries, k) {
                        let j = key_index(old_entries, k);
                        assert(entry_key(old_entries, j) == entry_key(e, j));
                    }
                    if k == key@ {
                        assert(entry_key(e, i as int) == k);
                    }
                }
                assert forall|k: Seq<char>| #[trigger]
                    entries_view(e).contains_key(k) implies entries_view(e)[k] == entries_view(
                    old_entries,
                ).insert(key@, new_value)[k] by {
                    let j = key_index(e, k);
                    lemma_entry_lookup(e, j);
                    if j != i {
                        assert(entry_key(old_entries, j) == entry_key(e, j));
                        lemma_entry_lookup(old_entries, j);
                    }
                }
                assert(entries_view(e) =~= entries_view(old_entries).insert(key@, new_value));
            }
        } else {
            entries.push((key, questions));
            proof {
                let e = entries@;
                assert forall|a: int, b: int|
                    0 <= a < e.len() && 0 <= b < e.len() && a != b implies #[trigger] entry_key(
                    e,
                    a,
                ) != #[trigger] entry_key(e, b) by {
                    if a < n {
                        assert(entry_key(e, a) == entry_key(old_entries, a));
                    }
                    if b < n {
                        assert(entry_key(e, b) == entry_key(old_entries, b));
                    }
                }
                assert forall|k: Seq<char>| #[trigger]
                    entries_view(e).contains_key(k) == entries_view(old_entries).insert(
                        key@,
                        new_value,
                    ).contains_key(k) by {
                    if has_key(e, k) {
                        let j = key_index(e, k);
                        if j < n {
                            assert(entry_key(old_entries, j) == entry_key(e, j));
                        }
                    }
                    if has_key(old_entries, k) {
                        let j = key_index(old_entries, k);
                        assert(entry_key(old_entries, j) == entry_key(e, j));
                    }
                    if k == key@ {
                        assert(entry_key(e, n as int) == k);
                    }
                }
                assert forall|k: Seq<char>| #[trigger]
                    entries_view(e).contains_key(k) implies entries_view(e)[k] == entries_view(
                    old_entries,
                ).insert(key@, new_value)[k] by {
                    let j = key_index(e, k);
                    lemma_entry_lookup(e, j);
                    if j != n {
                        assert(entry_key(old_entries, j) == entry_key(e, j));
                        lemma_entry_lookup(old_entries, j);
                    }
                }
                assert(entries_view(e) =~= entries_view(old_entries).insert(key@, new_value));
            }
        }
        self.entries = entries;
    }
}


pub open spec fn spec_question(
    sql: &str,
    help: &str,
    title: &str,
    keywords: Seq<Seq<char>>,
) -> QuestionView {
    (sql@, help@, title@, keywords)
}

/// The catalogue: each category of the tutorial with its questions in order.
pub open spec fn question_data() -> Map<Seq<char>, Seq<QuestionView>> {
    Map::empty().insert(
        "intro"@,
        seq![spec_question(INTRO_0_SQL, INTRO_0_HELP, INTRO_0_TITLE, seq!["group by"@])],
    ).insert(
        "over"@,
        seq![
            spec_question(OVER_0_SQL, OVER_0_HELP, OVER_0_TITLE, seq!["over"@]),
            spec_question(OVER_1_SQL, OVER_1_HELP, OVER_1_TITLE, seq!["partition by"@]),
            spec_question(OVER_2_SQL, OVER_2_HELP, OVER_2_TITLE, seq!["preceding"@, "following"@]),
            spec_question(OVER_3_SQL, OVER_3_HELP, OVER_3_TITLE, seq!["unbounded preceding"@]),
        ],
    ).insert(
        "ranking"@,
        seq![
            spec_question(RANKINGS_0_SQL, RANKINGS_0_HELP, RANKINGS_0_TITLE, seq!["row_number"@]),
            spec_question(RANKINGS_1_SQL, RANKINGS_1_HELP, RANKINGS_1_TITLE, seq!["rank"@]),
            spec_question(RANKINGS_2_SQL, RANKINGS_2_HELP, RANKINGS_2_TITLE, seq!["dense_rank"@]),
            spec_question(RANKINGS_3_SQL, RANKINGS_3_HELP, RANKINGS_3_TITLE, seq!["percent_rank"@]),
            spec_question(RANKINGS_4_SQL, RANKINGS_4_HELP, RANKINGS_4_TITLE, seq!["cume_dist"@]),
        ],
    ).insert(
        "grouping"@,
        seq![
            spec_question(GROUPINGS_0_SQL, GROUPINGS_0_HELP, GROUPINGS_0_TITLE, seq!["ntile"@]),
            spec_question(
                GROUPINGS_1_SQL,
                GROUPINGS_1_HELP,
                GROUPINGS_1_TITLE,
                seq!["lag"@, "lead"@, "min"@],
            ),
            spec_question(
                GROUPINGS_2_SQL,
                GROUPINGS_2_HELP,
                GROUPINGS_2_TITLE,
                seq!["lag"@, "lead"@, "min"@],
            ),
            spec_question(
                GROUPINGS_3_SQL,
                GROUPINGS_3_HELP,
                GROUPINGS_3_TITLE,
                seq!["first_value"@, "nth_value"@, "min"@],
            ),
            spec_question(GROUPINGS_4_SQL, GROUPINGS_4_HELP, GROUPINGS_4_TITLE, seq!["lead"@]),
            spec_question(GROUPINGS_5_SQL, GROUPINGS_5_HELP, GROUPINGS_5_TITLE, seq!["nth_value"@]),
            spec_question(GROUPINGS_6_SQL, GROUPINGS_6_HELP, GROUPINGS_6_TITLE, seq!["nth_value"@]),
        ],
    ).insert(
        "other"@,
        seq![
            spec_question(OTHER_0_SQL, OTHER_0_HELP, OTHER_0_TITLE, seq!["window"@]),
            spec_question(OTHER_1_SQL, OTHER_1_HELP, OTHER_1_TITLE, seq!["array_agg"@]),
            spec_question(OTHER_2_SQL, OTHER_2_HELP, OTHER_2_TITLE, seq!["filter"@]),
        ],
    )
}

/// Builds the catalogue of questions.
pub fn get_question_data_map() -> (r: QuestionMap<'static>)
    ensures
        r@ == question_data(),
{
    let mut m = QuestionMap::new();
    let intro: Vec<Question<'static>> = vec![
        (INTRO_0_SQL, INTRO_0_HELP, INTRO_0_TITLE, vec!["group by"]),
    ];
    assert(questions_view(intro@) =~= seq![
        spec_question(INTRO_0_SQL, INTRO_0_HELP, INTRO_0_TITLE, seq!["group by"@]),
    ]) by {
        assert(intro@[0].3@.map_values(|k: &'static str| k@) =~= seq!["group by"@]);
    }
    m.insert("intro", intro);
    let over: Vec<Question<'static>> = vec![
        (OVER_0_SQL, OVER_0_HELP, OVER_0_TITLE, vec!["over"]),
        (OVER_1_SQL, OVER_1_HELP, OVER_1_TITLE, vec!["partition by"]),
        (OVER_2_SQL, OVER_2_HELP, OVER_2_TITLE, vec!["preceding", "following"]),
        (OVER_3_SQL, OVER_3_HELP, OVER_3_TITLE, vec!["unbounded preceding"]),
    ];
    assert(questions_view(over@) =~= seq![
        spec_question(OVER_0_SQL, OVER_0_HELP, OVER_0_TITLE, seq!["over"@]),
        spec_question(OVER_1_SQL, OVER_1_HELP, OVER_1_TITLE, seq!["partition by"@]),
        spec_question(OVER_2_SQL, OVER_2_HELP, OVER_2_TITLE, seq!["preceding"@, "following"@]),
        spec_question(OVER_3_SQL, OVER_3_HELP, OVER_3_TITLE, seq!["unbounded preceding"@]),
    ]) by {
        assert(over@[0].3@.map_values(|k: &'static str| k@) =~= seq!["over"@]);
        assert(over@[1].3@.map_values(|k: &'static str| k@) =~= seq!["partition by"@]);
        assert(over@[2].3@.map_values(|k: &'static str| k@) =~= seq!["preceding"@, "following"@]);
        assert(over@[3].3@.map_values(|k: &'static str| k@) =~= seq!["unbounded preceding"@]);
    }
    m.insert("over", over);
    let ranking: Vec<Question<'static>> = vec![
        (RANKINGS_0_SQL, RANKINGS_0_HELP, RANKINGS_0_TITLE, vec!["row_number"]),
        (RANKINGS_1_SQL, RANKINGS_1_HELP, RANKINGS_1_TITLE, vec!["rank"]),
        (RANKINGS_2_SQL, RANKINGS_2_HELP, RANKINGS_2_TITLE, vec!["dense_rank"]),
        (RANKINGS_3_SQL, RANKINGS_3_HELP, RANKINGS_3_TITLE, vec!["percent_rank"]),
        (RANKINGS_4_SQL, RANKINGS_4_HELP, RANKINGS_4_TITLE, vec!["cume_dist"]),
    ];
    assert(questions_view(ranking@) =~= seq![
        spec_question(RANKINGS_0_SQL, RANKINGS_0_HELP, RANKINGS_0_TITLE, seq!["row_number"@]),
        spec_question(RANKINGS_1_SQL, RANKINGS_1_HELP, RANKINGS_1_TITLE, seq!["rank"@]),
        spec_question(RANKINGS_2_SQL, RANKINGS_2_HELP, RANKINGS_2_TITLE, seq!["dense_rank"@]),
        spec_question(RANKINGS_3_SQL, RANKINGS_3_HELP, RANKINGS_3_TITLE, seq!["percent_rank"@]),
        spec_question(RANKINGS_4_SQL, RANKINGS_4_HELP, RANKINGS_4_TITLE, seq!["cume_dist"@]),
    ]) by {
        assert(ranking@[0].3@.map_values(|k: &'static str| k@) =~= seq!["row_number"@]);
        assert(ranking@[1].3@.map_values(|k: &'static str| k@) =~= seq!["rank"@]);
        assert(ranking@[2].3@.map_values(|k: &'static str| k@) =~= seq!["dense_rank"@]);
        assert(ranking@[3].3@.map_values(|k: &'static str| k@) =~= seq!["percent_rank"@]);
        assert(ranking@[4].3@.map_values(|k: &'static str| k@) =~= seq!["cume_dist"@]);
    }
    m.insert("ranking", ranking);
    let grouping: Vec<Question<'static>> = vec![
        (GROUPINGS_0_SQL, GROUPINGS_0_HELP, GROUPINGS_0_TITLE, vec!["ntile"]),
        (GROUPINGS_1_SQL, GROUPINGS_1_HELP, GROUPINGS_1_TITLE, vec!["lag", "lead", "min"]),
        (GROUPINGS_2_SQL, GROUPINGS_2_HELP, GROUPINGS_2_TITLE, vec!["lag", "lead", "min"]),
        (
            GROUPINGS_3_SQL,
            GROUPINGS_3_HELP,
            GROUPINGS_3_TITLE,
            vec!["first_value", "nth_value", "min"],
        ),
        (GROUPINGS_4_SQL, GROUPINGS_4_HELP, GROUPINGS_4_TITLE, vec!["lead"]),
        (GROUPINGS_5_SQL, GROUPINGS_5_HELP, GROUPINGS_5_TITLE, vec!["nth_value"]),
        (GROUPINGS_6_SQL, GROUPINGS_6_HELP, GROUPINGS_6_TITLE, vec!["nth_value"]),
    ];
    assert(questions_view(grouping@) =~= seq![
        spec_question(GROUPINGS_0_SQL, GROUPINGS_0_HELP, GROUPINGS_0_TITLE, seq!["ntile"@]),
        spec_question(
            GROUPINGS_1_SQL,
            GROUPINGS_1_HELP,
            GROUPINGS_1_TITLE,
            seq!["lag"@, "lead"@, "min"@],
        ),
        spec_question(
            GROUPINGS_2_SQL,
            GROUPINGS_2_HELP,
            GROUPINGS_2_TITLE,
            seq!["lag"@, "lead"@, "min"@],
        ),
        spec_question(
            GROUPINGS_3_SQL,
            GROUPINGS_3_HELP,
            GROUPINGS_3_TITLE,
            seq!["first_value"@, "nth_value"@, "min"@],
        ),
        spec_question(GROUPINGS_4_SQL, GROUPINGS_4_HELP, GROUPINGS_4_TITLE, seq!["lead"@]),
        spec_question(GROUPINGS_5_SQL, GROUPINGS_5_HELP, GROUPINGS_5_TITLE, seq!["nth_value"@]),
        spec_question(GROUPINGS_6_SQL, GROUPINGS_6_HELP, GROUPINGS_6_TITLE, seq!["nth_value"@]),
    ]) by {
        assert(grouping@[0].3@.map_values(|k: &'static str| k@) =~= seq!["ntile"@]);
        assert(grouping@[1].3@.map_values(|k: &'static str| k@) =~= seq!["lag"@, "lead"@, "min"@]);
        assert(grouping@[2].3@.map_values(|k: &'static str| k@) =~= seq!["lag"@, "lead"@, "min"@]);
        assert(grouping@[3].3@.map_values(|k: &'static str| k@) =~= seq![
            "first_value"@,
            "nth_value"@,
            "min"@,
        ]);
        assert(grouping@[4].3@.map_values(|k: &'static str| k@) =~= seq!["lead"@]);
        assert(grouping@[5].3@.map_values(|k: &'static str| k@) =~= seq!["nth_value"@]);
        assert(grouping@[6].3@.map_values(|k: &'static str| k@) =~= seq!["nth_value"@]);
    }
    m.insert("grouping", grouping);
    let other: Vec<Question<'static>> = vec![
        (OTHER_0_SQL, OTHER_0_HELP, OTHER_0_TITLE, vec!["window"]),
        (OTHER_1_SQL, OTHER_1_HELP, OTHER_1_TITLE, vec!["array_agg"]),
        (OTHER_2_SQL, OTHER_2_HELP, OTHER_2_TITLE, vec!["filter"]),
    ];
    assert(questions_view(other@) =~= seq![
        spec_question(OTHER_0_SQL, OTHER_0_HELP, OTHER_0_TITLE, seq!["window"@]),
        spec_question(OTHER_1_SQL, OTHER_1_HELP, OTHER_1_TITLE, seq!["array_agg"@]),
        spec_question(OTHER_2_SQL, OTHER_2_HELP, OTHER_2_TITLE, seq!["filter"@]),
    ]) by {
        assert(other@[0].3@.map_values(|k: &'static str| k@) =~= seq!["window"@]);
        assert(other@[1].3@.map_values(|k: &'static str| k@) =~= seq!["array_agg"@]);
        assert(other@[2].3@.map_values(|k: &'static str| k@) =~= seq!["filter"@]);
    }
    m.insert("other", other);
    m
}


/// The categories in the order in which the tutorial visits them.
pub open spec fn category_order() -> Seq<Seq<char>> {
    seq!["intro"@, "over"@, "ranking"@, "grouping"@, "other"@]
}

/// The place of a category in `category_order`, if it has one.
pub open spec fn category_position(category: Seq<char>) -> Option<int> {
    if category == "intro"@ {
        Some(0)
    } else if category == "over"@ {
        Some(1)
    } else if category == "ranking"@ {
        Some(2)
    } else if category == "grouping"@ {
        Some(3)
    } else if category == "other"@ {
        Some(4)
    } else {
        None
    }
}

/// The name of the category at place `i` of the tutorial's order.
fn category_name(i: usize) -> (r: &'static str)
    requires
        i < 5,
    ensures
        r@ == category_order()[i as int],
{
    if i == 0 {
        "intro"
    } else if i == 1 {
        "over"
    } else if i == 2 {
        "ranking"
    } else if i == 3 {
        "grouping"
    } else {
        "other"
    }
}

/// The place of a category in the tutorial's order.
fn position_in_order(category: &str) -> (r: Option<usize>)
    ensures
        match r {
            Some(i) => category_position(category@) == Some(i as int),
            None => category_position(category@) is None,
        },
{
    if str_eq(category, "intro") {
        Some(0)
    } else if str_eq(category, "over") {
        Some(1)
    } else if str_eq(category, "ranking") {
        Some(2)
    } else if str_eq(category, "grouping") {
        Some(3)
    } else if str_eq(category, "other") {
        Some(4)
    } else {
        None
    }
}

/// The question at place `index` of a category, if the map has both.
pub open spec fn question_at(
    m: Map<Seq<char>, Seq<QuestionView>>,
    category: Seq<char>,
    index: int,
) -> Option<QuestionView> {
    if m.contains_key(category) && 0 <= index < m[category].len() {
        Some(m[category][index])
    } else {
        None
    }
}

/// The place that a question number names: the number read as a `usize`, or
/// the first place when it does not read as one.
pub open spec fn number_index(number: Seq<char>) -> int {
    match spec_parse_usize(number) {
        Some(n) => n as int,
        None => 0,
    }
}

/// The path of a page: the category, a slash, and the page's number text.
pub open spec fn page_path(category: Seq<char>, number: Seq<char>) -> Seq<char> {
    category + seq!['/'] + number
}

/// Finds the question that a category name and a question number name.
pub fn get_sql_for_q<'a, 'b>(data_mp: &'a QuestionMap<'b>, category: &str, number: &str) -> (r:
    Option<&'a Question<'b>>)
    ensures
        match r {
            Some(q) => question_at(data_mp@, category@, number_index(number@)) == Some(
                question_view(*q),
            ),
            None => question_at(data_mp@, category@, number_index(number@)) is None,
        },
{
    let questions_by_type = data_mp.get(category);
    match questions_by_type {
        Some(q_list) => {
            let tmp: usize = match parse_usize(number) {
                Some(n) => n,
                None => 0,
            };
            if tmp >= q_list.len() {
                None
            } else {
                Some(&q_list[tmp])
            }
        },
        None => None,
    }
}

/// The page after the one a category and a question number name:
/// the next question of the category if it has one, else the introduction of
/// the next category, or nothing after the last category; a category outside
/// the tutorial's order leads to the first category.
pub open spec fn spec_next_page(
    m: Map<Seq<char>, Seq<QuestionView>>,
    category: Seq<char>,
    sid: Seq<char>,
) -> Seq<char> {
    let id = parse_i32_or(sid, -1) + 1;
    let index = if id >= 0 {
        id
    } else {
        0
    };
    if question_at(m, category, index) is Some {
        page_path(category, int_to_decimal(id))
    } else {
        match category_position(category) {
            Some(i) => if i + 1 >= category_order().len() {
                Seq::empty()
            } else {
                category_order()[i + 1] + seq!['/']
            },
            None => category_order()[0] + seq!['/'],
        }
    }
}

/// The page before the one a category and a question number name.
/// Without a number (a category's introduction) it is the last question of
/// the previous category, or nothing before the first category; a number
/// above zero whose predecessor is a question of the category leads to that
/// question; anything else leads to the category's introduction (the first
/// category's for a category outside the tutorial's order).
pub open spec fn spec_prev_page(
    m: Map<Seq<char>, Seq<QuestionView>>,
    category: Seq<char>,
    sid: Seq<char>,
) -> Seq<char> {
    let id = parse_i32_or(sid, -1) - 1;
    if id == -2 {
        let idx = match category_position(category) {
            Some(i) => i,
            None => 1,
        };
        if idx == 0 {
            Seq::empty()
        } else {
            let prev = category_order()[idx - 1];
            page_path(prev, nat_to_decimal((m[prev].len() - 1) as nat))
        }
    } else if id > 0 && question_at(m, category, id) is Some {
        page_path(category, int_to_decimal(id))
    } else if category_position(category) is Some {
        category + seq!['/']
    } else {
        category_order()[0] + seq!['/']
    }
}

/// `get_next_page` does not overflow: the number is not the largest `i32`.
pub open spec fn next_page_defined(sid: Seq<char>) -> bool {
    spec_parse_i32(sid) != Some(i32::MAX)
}

/// `get_prev_page` does not overflow: the number is not the smallest `i32`,
/// and where the previous category's last question is asked for, the map has
/// that category with at least one question.
pub open spec fn prev_page_defined(
    m: Map<Seq<char>, Seq<QuestionView>>,
    category: Seq<char>,
    sid: Seq<char>,
) -> bool {
    &&& spec_parse_i32(sid) != Some(i32::MIN)
    &&& parse_i32_or(sid, -1) == -1 ==> {
        let idx = match category_position(category) {
            Some(i) => i,
            None => 1,
        };
        idx != 0 ==> m.contains_key(category_order()[idx - 1]) && m[category_order()[idx
            - 1]].len() > 0
    }
}

/// A category followed by a slash.
fn category_page(category: &str) -> (r: String)
    ensures
        r@ == category@ + seq!['/'],
{
    proof {
        reveal_strlit("/");
    }
    let mut s = String::from_str(category);
    s.append("/");
    s
}

/// A category, a slash, and a number text.
fn numbered_page(category: &str, number: &str) -> (r: String)
    ensures
        r@ == page_path(category@, number@),
{
    let mut s = category_page(category);
    s.append(number);
    s
}

/// The path of the page after the given one.
pub fn get_next_page(data_mp: &QuestionMap, category: &str, sid: &str) -> (r: String)
    requires
        next_page_defined(sid@),
    ensures
        r@ == spec_next_page(data_mp@, category@, sid@),
{
    let parsed: i32 = match parse_i32(sid) {
        Some(v) => v,
        None => -1,
    };
    let id_num: i32 = parsed + 1;
    let id = i64_to_string(id_num as i64);
    proof {
        lemma_parse_usize_of_decimal(id_num as int);
    }
    if get_sql_for_q(data_mp, category, id.as_str()).is_some() {
        numbered_page(category, id.as_str())
    } else {
        match position_in_order(category) {
            Some(i) => {
                if i + 1 >= 5 {
                    String::new()
                } else {
                    category_page(category_name(i + 1))
                }
            },
            None => category_page(category_name(0)),
        }
    }
}

/// The path of the page before the given one.
pub fn get_prev_page(data_mp: &QuestionMap, category: &str, sid: &str) -> (r: String)
    requires
        prev_page_defined(data_mp@, category@, sid@),
    ensures
        r@ == spec_prev_page(data_mp@, category@, sid@),
{
    let parsed: i32 = match parse_i32(sid) {
        Some(v) => v,
        None => -1,
    };
    let id: i32 = parsed - 1;
    let number = i64_to_string(id as i64);
    proof {
        lemma_parse_usize_of_decimal(id as int);
    }
    if id == -2 {
        let idx: usize = match position_in_order(category) {
            Some(i) => i,
            None => 1,
        };
        if idx == 0 {
            String::new()
        } else {
            let prev_cat = category_name(idx - 1);
            let count: usize = match data_mp.get(prev_cat) {
                Some(qs) => qs.len(),
                None => 0,
            };
            let max_id: usize = count - 1;
            let last = u64_to_string(max_id as u64);
            numbered_page(prev_cat, last.as_str())
        }
    } else if id > 0 && get_sql_for_q(data_mp, category, number.as_str()).is_some() {
        numbered_page(category, number.as_str())
    } else {
        match position_in_order(category) {
            Some(_) => category_page(category),
            None => category_page(category_name(0)),
        }
    }
}


/// The five category names are different from each other.
proof fn lemma_category_names()
    ensures
        forall|i: int|
            0 <= i < category_order().len() ==> category_position(#[trigger] category_order()[i])
                == Some(i),
{
    reveal_strlit("intro");
    reveal_strlit("over");
    reveal_strlit("ranking");
    reveal_strlit("grouping");
    reveal_strlit("other");
    assert(category_order()[0] == "intro"@);
    assert(category_order()[1] == "over"@);
    assert(category_order()[2] == "ranking"@);
    assert(category_order()[3] == "grouping"@);
    assert(category_order()[4] == "other"@);
    assert("intro"@[0] == 'i' && "over"@[0] == 'o' && "ranking"@[0] == 'r');
    assert("grouping"@[0] == 'g' && "other"@[0] == 'o' && "other"@[1] == 't');
    assert("over"@[1] == 'v');
    assert("over"@ != "intro"@);
    assert("ranking"@ != "intro"@ && "ranking"@ != "over"@);
    assert("grouping"@ != "intro"@ && "grouping"@ != "over"@ && "grouping"@ != "ranking"@);
    assert("other"@ != "intro"@ && "other"@ != "over"@ && "other"@ != "ranking"@
        && "other"@ != "grouping"@);
}

/// Within a category, going back from the page that "next" leads to returns to
/// the page one started from, for every question but the first (the page
/// before question 1 is the category's introduction, not question 0).
pub proof fn lemma_prev_undoes_next_within_category(
    m: Map<Seq<char>, Seq<QuestionView>>,
    category: Seq<char>,
    n: nat,
)
    requires
        m.contains_key(category),
        1 <= n,
        n + 1 < m[category].len(),
        n < i32::MAX,
    ensures
        next_page_defined(nat_to_decimal(n)),
        spec_next_page(m, category, nat_to_decimal(n)) == page_path(category, nat_to_decimal(n + 1)),
        prev_page_defined(m, category, nat_to_decimal(n + 1)),
        spec_prev_page(m, category, nat_to_decimal(n + 1)) == page_path(category, nat_to_decimal(n)),
{
    lemma_parse_i32_of_decimal(n as int);
    lemma_parse_i32_of_decimal((n + 1) as int);
}

/// The introduction of a category with questions leads on to its question 0,
/// and question 0 leads back to the introduction.
pub proof fn lemma_introduction_and_first_question(
    m: Map<Seq<char>, Seq<QuestionView>>,
    category: Seq<char>,
)
    requires
        category_position(category) is Some,
        m.contains_key(category),
        m[category].len() > 0,
    ensures
        spec_next_page(m, category, Seq::empty()) == page_path(category, nat_to_decimal(0)),
        prev_page_defined(m, category, nat_to_decimal(0)),
        spec_prev_page(m, category, nat_to_decimal(0)) == category + seq!['/'],
{
    lemma_parse_i32_of_decimal(0);
    assert(spec_parse_i32(Seq::<char>::empty()) is None);
}

/// From the last question of a category the tutorial moves on to the
/// introduction of the next category, and from that introduction it moves
/// back to the same last question.
pub proof fn lemma_next_category_and_back(m: Map<Seq<char>, Seq<QuestionView>>, i: int)
    requires
        0 <= i,
        i + 1 < category_order().len(),
        m.contains_key(category_order()[i]),
        0 < m[category_order()[i]].len() <= i32::MAX,
    ensures
        ({
            let c = category_order()[i];
            let last = nat_to_decimal((m[c].len() - 1) as nat);
            &&& next_page_defined(last)
            &&& spec_next_page(m, c, last) == category_order()[i + 1] + seq!['/']
            &&& prev_page_defined(m, category_order()[i + 1], Seq::empty())
            &&& spec_prev_page(m, category_order()[i + 1], Seq::empty()) == page_path(c, last)
        }),
{
    lemma_category_names();
    let c = category_order()[i];
    let n = m[c].len() - 1;
    lemma_parse_i32_of_decimal(n);
    assert(category_position(category_order()[i]) == Some(i));
    assert(category_position(category_order()[i + 1]) == Some(i + 1));
    assert(spec_parse_i32(Seq::<char>::empty()) is None);
}

/// Nothing comes before the first category's introduction, and nothing comes
/// after the last question of the last category.
pub proof fn lemma_ends_of_the_tutorial(m: Map<Seq<char>, Seq<QuestionView>>)
    requires
        m.contains_key(category_order()[4]),
        0 < m[category_order()[4]].len() <= i32::MAX,
    ensures
        prev_page_defined(m, category_order()[0], Seq::empty()),
        spec_prev_page(m, category_order()[0], Seq::empty()) == Seq::<char>::empty(),
        next_page_defined(nat_to_decimal((m[category_order()[4]].len() - 1) as nat)),
        spec_next_page(
            m,
            category_order()[4],
            nat_to_decimal((m[category_order()[4]].len() - 1) as nat),
        ) == Seq::<char>::empty(),
{
    lemma_category_names();
    let n = m[category_order()[4]].len() - 1;
    lemma_parse_i32_of_decimal(n);
    assert(category_position(category_order()[0]) == Some(0int));
    assert(category_position(category_order()[4]) == Some(4int));
    assert(spec_parse_i32(Seq::<char>::empty()) is None);
}


/// The catalogue has exactly the tutorial's five categories, and each of
/// them has questions.
pub proof fn lemma_catalogue_categories()
    ensures
        forall|c: Seq<char>| #[trigger]
            question_data().contains_key(c) <==> category_position(c) is Some,
        forall|i: int|
            0 <= i < category_order().len() ==> #[trigger] question_data()[category_order()[i]].len()
                > 0,
{
    lemma_category_names();
    let m = question_data();
    assert forall|c: Seq<char>| #[trigger]
        m.contains_key(c) <==> category_position(c) is Some by {
        if category_position(c) is Some {
            let i = category_position(c)->0;
            assert(c == category_order()[i]);
        }
    }
    assert(m[category_order()[0]].len() == 1);
    assert(m[category_order()[1]].len() == 4);
    assert(m[category_order()[2]].len() == 5);
    assert(m[category_order()[3]].len() == 7);
    assert(m[category_order()[4]].len() == 3);
}

/// With the catalogue, the links of every page can be worked out, unless the
/// page's number reads as the smallest or the largest `i32`.
pub proof fn lemma_catalogue_links_defined(category: Seq<char>, sid: Seq<char>)
    requires
        spec_parse_i32(sid) != Some(i32::MIN),
        spec_parse_i32(sid) != Some(i32::MAX),
    ensures
        next_page_defined(sid),
        prev_page_defined(question_data(), category, sid),
{
    lemma_catalogue_categories();
    let idx = match category_position(category) {
        Some(i) => i,
        None => 1,
    };
    if idx != 0 {
        assert(question_data()[category_order()[idx - 1]].len() > 0);
        assert(category_position(category_order()[idx - 1]) is Some) by {
            lemma_category_names();
        }
    }
}


/// Each question of the catalogue holds the model SQL, the help link and the
/// title of the same numbered question of its category, and its keywords.
pub proof fn lemma_catalogue_questions()
    ensures
        question_data()["intro"@].len() == 1,
        question_data()["intro"@][0] == (INTRO_0_SQL@, INTRO_0_HELP@, INTRO_0_TITLE@, seq!["group by"@]),
        question_data()["over"@].len() == 4,
        question_data()["over"@][0] == (OVER_0_SQL@, OVER_0_HELP@, OVER_0_TITLE@, seq!["over"@]),
        question_data()["over"@][1] == (OVER_1_SQL@, OVER_1_HELP@, OVER_1_TITLE@, seq!["partition by"@]),
        question_data()["over"@][2] == (OVER_2_SQL@, OVER_2_HELP@, OVER_2_TITLE@, seq!["preceding"@, "following"@]),
        question_data()["over"@][3] == (OVER_3_SQL@, OVER_3_HELP@, OVER_3_TITLE@, seq!["unbounded preceding"@]),
        question_data()["ranking"@].len() == 5,
        question_data()["ranking"@][0] == (RANKINGS_0_SQL@, RANKINGS_0_HELP@, RANKINGS_0_TITLE@, seq!["row_number"@]),
        question_data()["ranking"@][1] == (RANKINGS_1_SQL@, RANKINGS_1_HELP@, RANKINGS_1_TITLE@, seq!["rank"@]),
        question_data()["ranking"@][2] == (RANKINGS_2_SQL@, RANKINGS_2_HELP@, RANKINGS_2_TITLE@, seq!["dense_rank"@]),
        question_data()["ranking"@][3] == (RANKINGS_3_SQL@, RANKINGS_3_HELP@, RANKINGS_3_TITLE@, seq!["percent_rank"@]),
        question_data()["ranking"@][4] == (RANKINGS_4_SQL@, RANKINGS_4_HELP@, RANKINGS_4_TITLE@, seq!["cume_dist"@]),
        question_data()["grouping"@].len() == 7,
        question_data()["grouping"@][0] == (GROUPINGS_0_SQL@, GROUPINGS_0_HELP@, GROUPINGS_0_TITLE@, seq!["ntile"@]),
        question_data()["grouping"@][1] == (GROUPINGS_1_SQL@, GROUPINGS_1_HELP@, GROUPINGS_1_TITLE@, seq!["lag"@, "lead"@, "min"@]),
        question_data()["grouping"@][2] == (GROUPINGS_2_SQL@, GROUPINGS_2_HELP@, GROUPINGS_2_TITLE@, seq!["lag"@, "lead"@, "min"@]),
        question_data()["grouping"@][3] == (GROUPINGS_3_SQL@, GROUPINGS_3_HELP@, GROUPINGS_3_TITLE@, seq!["first_value"@, "nth_value"@, "min"@]),
        question_data()["grouping"@][4] == (GROUPINGS_4_SQL@, GROUPINGS_4_HELP@, GROUPINGS_4_TITLE@, seq!["lead"@]),
        question_data()["grouping"@][5] == (GROUPINGS_5_SQL@, GROUPINGS_5_HELP@, GROUPINGS_5_TITLE@, seq!["nth_value"@]),
        question_data()["grouping"@][6] == (GROUPINGS_6_SQL@, GROUPINGS_6_HELP@, GROUPINGS_6_TITLE@, seq!["nth_value"@]),
        question_data()["other"@].len() == 3,
        question_data()["other"@][0] == (OTHER_0_SQL@, OTHER_0_HELP@, OTHER_0_TITLE@, seq!["window"@]),
        question_data()["other"@][1] == (OTHER_1_SQL@, OTHER_1_HELP@, OTHER_1_TITLE@, seq!["array_agg"@]),
        question_data()["other"@][2] == (OTHER_2_SQL@, OTHER_2_HELP@, OTHER_2_TITLE@, seq!["filter"@]),
{
    lemma_category_names();
    assert(category_position("intro"@) == Some(0int));
    assert(category_position("over"@) == Some(1int));
    assert(category_position("ranking"@) == Some(2int));
    assert(category_position("grouping"@) == Some(3int));
    assert(category_position("other"@) == Some(4int));
}

} // verus!
