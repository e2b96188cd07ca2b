# Cosmic Cults — verified game rules

The rules of a Lovecraftian real-time strategy game, written in Verus and
proved against their contracts: AI state machines, behavior trees, target
selection, strategic and economic decisions, experience and levels, unit
actions, coordination, cult profiles, asset registries and the game's sound
cues.

## Layout

- `src/` — the verified library (`cosmic_cults`).
  - `float_bits`, `float_convert`: `f32` values travel through the library as
    their IEEE-754 bit patterns; comparisons, halving and the `as` casts
    between `f32` and integers are computed on the bits.
  - `behavior_tree`, `behaviors`: two behavior-tree engines, a generic one and
    the unit AI's, each with a spec of what a tick does.
  - `state_machine`, `ai_states`: rule-table state machines with timers.
  - `targeting`, `combat_targeting`, `ranking`, `utility`: choosing targets
    and actions.
  - `decision`, `decision_making`: goals, decision queues and their histories.
  - `xp`, `combat`, `unit_actions`, `coordination`, `cult_profiles`,
    `registry`, `audio`, `selection`: the rest of the game's rules.
  - `keyed`, `text`: maps keyed by strings or by comparable keys.
- `tests/` — tests of the library on concrete values.
- `app/` — the game around the library: the Bevy ECS systems that read the
  world, hand plain values to the library and apply what it decides, and the
  floating-point formulas (scores, damage, geometry) that the library does
  not carry.
