# socrata_roulette

Generates a random aggregation query (`SELECT` dimensions and measures, `GROUP BY`
the dimensions, `ORDER BY` some of them, `LIMIT 100`) on a random Socrata dataset
indexed by Splitgraph, and shows it in Splitgraph's embedded query workspace.

- `src/` is the library, verified with Verus:
  - `socrata`: datasets and columns, and their description by the search index;
  - `query`: measures, dimensions, queries and their SQL text;
  - `generate` and `random`: random queries, from draws of `rand`;
  - `slug`: the table names that Splitgraph's Socrata loader derives from dataset names;
  - `ddn`: Splitgraph's SQL dialect, the request for a random dataset and the replies;
  - `query_state`: what the page shows;
  - `text`: character-level helpers;
  - `laws`: properties that span several functions.
- `app/` is the web page (Yew): the network calls, serde types and components.
- `tests/` runs the library on concrete values.
