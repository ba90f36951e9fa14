//! The pure logic behind a handful of terminal games and editor tools.

pub mod arith;
pub mod keys;
pub mod nova;
pub mod text;
pub mod nonogram;
pub mod mpuz;
pub mod missilecommand;
pub mod merge;
pub mod diff_view;
pub mod completers;
pub mod powerline;
pub mod projectile_review;
pub mod package_menu;
pub mod preferences;
