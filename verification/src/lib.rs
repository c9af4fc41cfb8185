//! osa2cal: turns college schedules from OpenScheduleAPI into calendar
//! events, for a CalDAV server or an iCalendar file.
//!
//! The modules hold what the tool decides and writes; the program around it
//! (`app/`) reads the settings file, talks to the schedule API and the CalDAV
//! server, and prints.

pub mod text;
pub mod datetime;
pub mod caldav;
pub mod config;
pub mod schedule;
pub mod ics;
pub mod cli;
