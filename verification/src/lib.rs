//! Core model of a tabletop-RPG session server: narrative tags and themes,
//! roll modifiers, the roll resolver, the request/response protocol, and the
//! broadcast hub that fans resolved responses out to connected clients.

pub mod hero;
pub mod hub;
pub mod limit;
pub mod messaging;
pub mod might;
pub mod modifier;
pub mod render;
pub mod session;
pub mod tag;
pub mod theme;
