//! Slipway: the logic of a small marina's web site — its berths, vessel
//! search, work orders, magic-link sign-in and sessions, and the safe
//! handling of redirect targets and search URLs.
#[allow(unused_imports)]
use vstd::prelude::*;

pub mod auth;
pub mod clock;
pub mod form;
pub mod layout;
pub mod login;
pub mod marina;
pub mod redirect;
pub mod text;
pub mod vessels;
pub mod work_orders;
