//! The data model of a spectrum card: the spectrums a person fills in, how a
//! saved card is merged back into the current list, the text that each card
//! cell shows, the HTML page that a card is rendered from, and the checks on
//! what a user types for a spectrum.
pub mod card;
pub mod input;
pub mod render;
pub mod spectrum;
