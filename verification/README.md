# critical_point

The deterministic core of a rollback-networked action game, written in Verus.

`src/` is the verified library:

- `state`, `history`, `generation`, `random`: per-frame histories of states,
  id counters and random streams, with rollback (`restore`) and confirmation
  (`confirm`, `discard`).
- `input`, `queue_steps`: per-player queues of numbered input events, the
  pre-input window, the system that keeps all players' queues synchronized,
  and what a sequence of calls does to a queue.
- `next_action`: the choice of the action an input key leads to.
- `layer`, `contact`: physics object layers and the packed user data of
  physics bodies.
- `action`, `base`, `ids`, `error`: life cycle of actions and AI tasks, state
  kinds and ids.
- `verify`: the checks of a player's chosen character, equipment, perks,
  accessories and jewels against the template database.
- `save`: the frame bookkeeping of saves, the bytes of the save indexes and
  the playback cursor over them.

`app/` holds what stays outside the verifier: floating-point input
directions, random floats, and the threads and files of saving and playback.
