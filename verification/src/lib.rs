//! The logic of the Psysonic desktop and mobile shell.
//!
//! What the shell decides and computes stands here, apart from the windows, files, devices and
//! servers that it works with:
//!
//! - the cover cache: [`index_key`] and [`paths`] say where covers live, [`tiers`] in which sizes,
//!   [`peek`] and [`ensure`] how one is found or fetched, [`bucket`] how a server's covers are
//!   moved, merged, purged and counted, [`usage`] and [`pools`] what is remembered and reported of
//!   the cache, [`picture`] how a cover is decoded;
//! - library backfill: [`backfill`] is the worker, [`full_pass`] one pass over the catalog;
//! - background sync: [`scheduler`], with [`clock`] and [`ports`];
//! - audio output: [`device_watcher`];
//! - the system around the application: [`media`], [`shortcuts`], [`wayland`], [`android`],
//!   [`windows`], [`mini_position`], [`tray`];
//! - development: [`theme_watch`], [`bindings`], [`commands`].
//!
//! Where the shell alternates between deciding and acting, the decisions are a machine that says
//! what to do next and takes back what came of it.
pub mod android;
pub mod backfill;
pub mod bindings;
pub mod bucket;
pub mod clock;
pub mod commands;
mod commands_apart;
pub mod device_watcher;
pub mod ensure;
pub mod full_pass;
pub mod index_key;
pub mod media;
pub mod mini_position;
pub mod paths;
pub mod peek;
pub mod picture;
pub mod pools;
pub mod ports;
pub mod scheduler;
pub mod shortcuts;
pub mod table;
pub mod text;
pub mod theme_watch;
pub mod tiers;
pub mod tray;
pub mod usage;
pub mod wayland;
pub mod windows;
