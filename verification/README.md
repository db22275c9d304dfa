# n-simulation

The deterministic core of the N Genesis economy simulation, verified with Verus.

`src/` is the verified library:

- `str_map` — `StrMap`, a finite map keyed by names (distinct names are its type invariant).
  It stands where the simulation would use `HashMap<String, _>`: vstd's specification of
  `HashMap` gives facts about its contents only for key types whose hashing and equality it
  models; with `String` keys, a plain trial did not even prove the length after one insert. `StrMap`
  keeps the entries in a `Vec` and its view is the `Map` of names to values, without order.
- `resources`, `agent` — resource kinds, typed and capacity-limited inventories.
- `production` — recipes, the production checks and the atomic production cycle.
- `market` — listings and transactions (prices are carried in the caller's number type).
- `employment` — employment contracts and the labor market's bookkeeping.
- `clock` — the tick clock, its calendar and the seeded random generator.
- `routine` — the priority rules of an agent's daily routine.
- `text` — the error messages, rendered with a verified decimal writer.
- `company`, `property`, `events`, `simulation` — the remaining kinds and rules.

`app/` runs the world: everything that computes with money, prices, needs and skills
(all `f64`), the tick loop that calls the library, JSON persistence and `main`.

`tests/` exercises the library on concrete values.
