//! A singly-linked stack whose operations are specified over the sequence of
//! values it holds, front first, with facts about runs of its operations; and
//! a grid of cells that evolves by a neighbour-count rule.
pub mod game_of_life;
pub mod laws;
pub mod list;
