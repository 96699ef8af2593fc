//! Turning a decklist into print-ready card sheets: the deck model and the
//! printing picker, the decklist line grammar, the catalog entry rules, the
//! resolution of a card name to its printings, and the duplex grid layout.

pub mod layout;
pub mod text;
pub mod catalog;
pub mod deck;
pub mod resolve;
pub mod decklist;
pub mod images;
