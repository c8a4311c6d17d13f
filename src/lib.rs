//! Role-based privilege elevation: the configuration model, the option resolver,
//! the capability-set algebra, the credential/command matcher and the ordered
//! privilege-transition plan.
pub mod text;
pub mod capabilities;
pub mod options;
pub mod structs;
pub mod finder;
pub mod env;
pub mod transition;
pub mod cli;
pub mod xml;
