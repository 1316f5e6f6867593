//! Identity resolution, session establishment and SSH key registry for a
//! git-over-SSH host whose users sign in with a decentralized identity.
pub mod identifier;
pub mod registry;
pub mod resolver;
pub mod session;
