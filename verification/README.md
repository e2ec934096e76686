# rust_gomoku

A Gomoku (freestyle and Renju) engine core written in Verus: every function
in `src/` carries a contract that Verus proves.

## Layout

- `src/` — the verified library
  - `board`, `zobrist`, `types`, `constants`: the board, move encoding,
    make/unmake and Zobrist keys
  - `rules`: Renju forbidden moves (double three, double four, overline)
  - `patterns`: line extraction and shape scans
  - `threats`: the threat view, VCF and VCT searches
  - `search`: transposition table, candidate coverage, ordering helpers,
    root move window and root filters
  - `eval`: evaluation caches and the incremental bookkeeping of local
    evaluation
  - `config`, `game`, `controller`: engine settings, difficulty presets and
    the game controller that front ends drive
  - `protocol`: the Gomocup protocol
  - `cli`, `referee`: command lines, the browser front end's requests and
    replies, and the Renju referee
  - `text`: keyword matching and decimal text
- `tests/` — tests run against the compiled library
- `app/` — the parts that do I/O: the protocol loop, the browser front
  end's server, the referee and probe tools, and the JSON forms of the
  library's records

## What is not here

- The alpha-beta search is not part of this crate: its fractional depth
  reductions and floating-point scores cannot be parted from its logic.
  The root driver's decisions are here and verified (`search::root`:
  `root_start` and `root_step` — the centre on an empty board, the root VCF
  search first, the VCT search only when triggered and its move only once
  verified, the root window with the opponent-VCF filter, the deepening
  loop's stops and the classic fallback). `app/root.rs` runs the loop with
  the deadline and a caller-supplied alpha-beta search; parallel helper
  searches are not run.
- The static evaluation is not here either: the shape table and the bucket
  and attack computation that read it. `eval` holds the caches and the
  incremental bookkeeping that the evaluation runs on, not the scores.
- So the front ends (protocol, browser front end, probes) take the search
  as a caller-supplied function, and the evaluation caches that the
  fallback move reads must be filled by the caller as well: no code in this
  crate fills the shape caches.
