# piggy

A password store whose entries only a smart card can open, and the tools
around it: an SSH agent for the keys of the card, setting up a card, and a
report on whether all of it works.

The library in `src/` decides; the program in `app/` acts. A command of the
library takes what was asked for and what was found, and returns what to do
next; reading files, running other programs, and talking to cards and sockets
is the program's part. What each decision is, is stated in the contract of its
function and proved with Verus.

- `text`, `wire`, `options`, `store_path`: characters, bytes, command lines
  and paths.
- `crypto`: the hashes, keys and certificates that other crates compute, with
  what is taken from them on trust.
- `init`, `insert`, `edit`, `copy_move`, `find`, `grep`, `git`, `git_ops`,
  `crypt`, `luks`, `confirm`, `fallback`, `internal_clipboard_restore`,
  `version`: the commands on the store.
- `cmd::agent`: the agent, its PINs, its cards and the agents it speaks for.
- `cmd::pivy_box` and `cmd::box_job`, `cmd::tool` and `cmd::tool::job`,
  `card_oracle`, `agent_client`, `ecdsa_sig`: encryption, signatures and key
  agreement.
- `card`: setting up a card, step by step, and where its management key goes.
- `health`: the report.

Functions named `law_…` state what holds across several functions.
