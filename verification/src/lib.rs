pub mod cards;
pub mod eval;
pub mod hand;
pub mod parse;

pub use cards::NUMBER_OF_CARDS;
pub use eval::get_hand_category;
pub use eval::HandCategory;
pub use hand::Hand;
pub use parse::parse_hand;
pub use parse::ParseError;
