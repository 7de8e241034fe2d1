# remaining

A personal-budgeting tool that tells how much money remains to spend in the
current accounting period, given account balances, savings buckets, goals,
predicted income and recurring payments kept in a "vault" directory.

## Layout

- `src/` — the library, written in Verus and proved by it. Public
  functions carry `requires`/`ensures` contracts over spec functions; small
  private helpers rely on the contracts of what they call. Calls into `chrono`,
  `rust_decimal` and `comfy-table` go through small trusted wrappers whose
  doc comments say what is assumed of the outside function.
  - `date`, `period`, `chrono_stack`: calendar dates, accounting periods
    (calendar months or fixed runs of days), dated lists kept in order.
  - `amounts`, `text`, `line`: figures, currencies and exchange rates; text
    helpers; vault lines that start with a date.
  - `buckets`, `goals`, `accounts`, `ignored_transaction`,
    `predicted_income`, `predicted_transaction`: the data that the vault
    holds and what each contributes for a period.
  - `operand`, `remaining_operation`, `calculator`, `formatting`: the
    "remaining this period" operation and its screen.
  - `legacy`, `legacy_screen`: the screen of the first version of the tool.
  - Public `law_*` proof functions state properties that span several
    functions (round trips, what an operation keeps or undoes).
- `tests/` — ordinary Rust tests run against the compiled library.
- `app/` — the command-line program: argument parsing, reading the vault
  from disk, and printing the screen.
