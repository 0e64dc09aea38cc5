# sqlquiz

A small web tutorial on SQL window functions. Visitors read a question, write
SQL against a table of cats, and see whether their answer's rows match the
model answer.

- `src/` — the library, verified with Verus:
  - `sql.rs`: the question catalogue, question lookup, and the links to the
    previous and next pages, with the laws that tie the two directions together;
  - `decimal.rs`: reading and writing integers as decimal text;
  - `text.rs`: string equality, substring search, joining;
  - `pattern.rs`: regular expressions through the `regex` crate;
  - `db.rs`: screening of visitors' SQL and turning query answers into tables;
  - `page.rs`: what a question page shows;
  - `errors.rs`: the page errors.
- `app/` — the actix-web server around it: routes, templates, the database pool.
- `tests/` — tests of the library.
