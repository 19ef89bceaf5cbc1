# xgpui (verified core)

The state and rule logic of the xgpui desktop components — `Select`,
`DataTable`, `DateTimePicker` and `Button` — as a Verus library: every
function states its behaviour in `requires`/`ensures` and Verus proves it.

- `src/select`: options, local case-insensitive search, keyboard highlight,
  search-text editing by grapheme cluster with UTF-16 ranges for IMEs, trigger text.
- `src/data_table`: rows by stable key, text filter, stable text sort,
  pagination, single/multiple selection, keyboard row, page-size choice.
- `src/date_time_picker`: calendar values, parsing and formatting through
  `chrono`, bounds and disabled rules, drafts, ranges, calendar pages, time wheels.
- `src/button`: variants, tones, colour tokens, loading and disabled states.
- `src/text.rs`, `src/decimal.rs`, `src/field_style.rs`: shared text, number
  and colour-token rules.
- `app/`: host-side helpers that need floating point or `chrono` values.

Rendering and event plumbing belong to the host application; it maps colour
tokens to its theme and feeds user events to the states here.
