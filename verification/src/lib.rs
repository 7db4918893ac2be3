//! Navigation over a public-transit schedule: the records of a feed, the
//! projection of a schedule onto one route or one stop, and the dotted
//! command language that drives it.

pub mod commands;
pub mod gtfs;
pub mod projection;
pub mod text;
