# cepheus_trader

Rules of a Cepheus Engine space-trading game, written in Verus: every
function in `src/` carries a contract that Verus proves.

## Layout

- `src/` — the verified library.
  - `arith`, `text`, `catalog_text`, `key_order` — integer mixing, decimal
    and text helpers, the scanner for the plain-text catalogs, and the order
    of integer keys in ordered sets.
  - `clock`, `crypto`, `i18n` — the game clock, seeded byte streams
    (HMAC-SHA-256), language negotiation and number formatting.
  - `universe`, `commerce`, `mining`, `jump`, `traffic`, `navigation` —
    worlds, trade goods and prices, resource prospects, Jump timing.
  - `task_resolution`, `personnel`, `careers`, `creation` — task checks,
    injuries and morale, naval and privateer careers, character and crew
    creation.
  - `combat`, `combat_damage`, `combat_round`, `combat_tactics`,
    `combat_catalog`, `combat_rules`, `ship_catalog` — ship combat: damage,
    the round (missiles, crew actions in initiative order, boarding), the
    automated tactical controller, and the weapon and ship catalogs.
  - `ship_status`, `starting_offers` — a ship's status and subsystems from
    its record and runtime figures; the starting offers, their summaries,
    financial terms, refits and descriptions.
  - `coverage`, `bbs_polity`, `atlas`, `celestial`, `person_names`,
    `place_names`, `wire` — map coverage bitmaps, polity sites, the dice
    and tables that roll a system's secondary worlds, belts and quirks, name
    generation and the shapes exchanged with clients.
- `tests/` — tests of the library on concrete values.
- `app/` — ordinary Rust around the library: key files and their
  permissions, catalog files, floating-point coverage geometry, and error
  types with `std::error::Error`.

Laws of the library stand in `src/` as public proof functions (for example
`combat::lemma_range_steps_undo`, `creation::lemma_crew_templates_are_valid`)
or as clauses of the contracts they belong to (for example
`combat_round::resolve_round` closes a round with the same vessels, one
round, one revision and one combat turn later).
