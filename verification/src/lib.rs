//! A store of one-shot and recurring reminders, with the rules by which
//! reminders fall due, are listed, edited and rescheduled.

pub mod cron;
pub mod db;
pub mod edit_slot;
pub mod entity;
pub mod err;
pub mod generic_reminder;
pub mod migration;
pub mod model;
pub mod scheduler;
pub mod table;
pub mod timezone;
