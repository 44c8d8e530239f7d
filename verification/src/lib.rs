//! Potsworth keeps a tea rota for a group that meets in sessions.
//!
//! People take turns in a fixed order ([`rota`]); a marker points at whoever is up next, and booking
//! a session puts them on tea and moves the marker on. Each channel has a rota and a calendar of its
//! own ([`store`]), and users change them by commands ([`request`], [`rota_command`],
//! [`session_command`], [`potsworth_command`]). What a command comes to is stated over the models of
//! [`model`] and [`date`]; what holds of all of them together is proved in the `*_laws` modules.

pub mod calendar;
pub mod command_laws;
pub mod date;
pub mod date_laws;
pub mod model;
pub mod potsworth_command;
pub mod registry;
pub mod reply;
pub mod request;
pub mod request_laws;
pub mod rota;
pub mod rota_command;
pub mod rota_command_laws;
pub mod rota_laws;
pub mod session_command;
pub mod session_command_laws;
pub mod session_laws;
pub mod store;
pub mod text;
pub mod text_laws;
pub mod upkeep;
