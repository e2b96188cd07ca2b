//! Game rules of a real-time strategy game: AI state machines, behavior trees,
//! target selection, experience and progression, and the registries and queues
//! that the game's systems share.
pub mod float_bits;
pub mod float_convert;
pub mod text;
pub mod keyed;
pub mod behavior_tree;
pub mod behaviors;
pub mod state_machine;
pub mod xp;
pub mod combat;
pub mod ai_states;
pub mod ranking;
pub mod utility;
pub mod targeting;
pub mod registry;
pub mod decision_making;
pub mod decision;
pub mod coordination;
pub mod cult_profiles;
pub mod audio;
pub mod selection;
pub mod combat_targeting;
pub mod unit_actions;
