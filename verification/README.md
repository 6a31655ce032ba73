# dot-tower

An idle tower-climbing game: a stream of climbers fights its way up an endless
tower, the player buys ranks and locks, and prestige trades a run for a
permanent multiplier measured against the account's deepest-ever floor.

## Layout

- `src/` — the rules that do not depend on floating point, verified with Verus:
  the lock line and which floors a tick looks at (`tower`), who the stream
  spawns next (`stream`), whom a healer can reach (`heal`), the floor-by-floor
  sweep both the column and the healers use (`sweep`), what prestige keeps and
  what validation may change (`save`), what a save load decides and when
  writes are refused (`slot`), what time away is paid for (`offline`), when the
  world is put down and picked up (`rest`), where the column looks (`view`),
  what the scripted player considers buying (`autoplay`), and everything the
  game says in counts (`text`). `laws` states what holds across calls.
- `app/` — the program around it: the `f64` economy and combat, the save and
  tuning files (serde and RON), and a headless runner.
- `tests/` — tests of the library on concrete values.
