//! Nova — the heavy-weapons formation shooter: the pure court, its ships,
//! its enemies, its sectors and its campaign.

pub mod consts;
pub mod kinds;
pub mod entities;
pub mod boss;
pub mod terrain;
pub mod capital;
pub mod starmap;
pub mod campaign;
pub mod game;
pub mod game_score;
pub mod game_wave;
pub mod game_chart;
pub mod game_hangar;
pub mod game_fire;
pub mod game_tick;
pub mod game_foes;
pub mod game_hits;
pub mod game_volley;
pub mod game_round;
pub mod view;
pub mod cockpit;
pub mod hud;
