# grandpa_communication

The decisions behind the communication streams of a GRANDPA voter, verified
with Verus.

GRANDPA nodes gossip their votes, the commits that complete a round, and the
catch-ups that help a node that has fallen behind. The library decides what a
node does with each of them; what it decides is a list of actions that the
program around it carries out in order.

- `src/` is the verified library.
  - `types`, `action`: the data, and what a node can be told to do.
  - `layout`, `codec`: the byte formats of votes, commits and catch-ups.
  - `topic`: the gossip topics of rounds and voter sets.
  - `crypto`, `signing`: hashes, keys and signatures.
  - `voters`, `check`: the voter set, and whether a commit or a catch-up is
    worth processing.
  - `incoming`, `outgoing`, `bridge`: the streams and sinks of a round and of a
    voter set, and startup.
  - `cost`, `benefit`: what peers pay and earn.
  - `quorum`, `laws`: what holds across the modules.
- `app/` connects the library to a gossip engine, a gossip validator and a
  voter.
- `tests/` runs the library on concrete values.

Hashing and ed25519 signatures come from `sp-core`, the voter set from
`finality-grandpa`, and encoding from `parity-scale-codec`. The contracts that
the proofs take on trust about them stand, with the reasons, in `crypto`,
`voters` and `codec`.
