//! Client-side logic for the Gemini protocol: status lines, responses, the
//! request exchange as a state machine, and the gemtext document format.
//!
//! Nothing in this crate touches the network. A transport performs the steps
//! that [`gemini::Exchange`] asks for and reports back what happened.

pub mod gemini;
