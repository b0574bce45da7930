//! Expected per-round damage of d20-style attack routines.
//!
//! All quantities are exact: damage is counted in half-points (a d6
//! averages 3.5 points, stored as 7), probabilities in twentieths of a
//! d20 face, and expected damage comes back as an exact [`ratio::Ratio`].

pub mod attack;
pub mod damage;
pub mod dice;
pub mod mark;
pub mod ratio;
pub mod turn;

pub use attack::Attack;
pub use damage::Damage;
pub use mark::HuntersMark;
pub use ratio::uncmp;
pub use ratio::Ratio;
pub use turn::Turn;

pub use dice::d10;
pub use dice::d12;
pub use dice::d4;
pub use dice::d6;
pub use dice::d8;
