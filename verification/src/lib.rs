//! Digital wellbeing: how long each application was in the foreground,
//! day by day.
//!
//! * [`foreground`] makes an observation of what the window manager says.
//! * [`identity`] names the application that an observation shows.
//! * [`log`] holds the seconds counted for each name on one day.
//! * [`logfile`] is the text in which a day's log is stored.
//! * [`date`] and [`store`] say which day it is about and where its file
//!   lies, and how a file is replaced without ever being half written.
//! * [`sampler`] decides, tick by tick, what the sampling loop does.
//! * [`viewer`] decides what a chart of the logs shows.
//! * [`decimal`] and [`text`] write numbers and handle characters.
//!
//! The library reads no clock, asks no window manager and touches no file:
//! its caller does, and hands over what it found.

pub mod date;
pub mod decimal;
pub mod foreground;
pub mod identity;
pub mod log;
pub mod logfile;
pub mod sampler;
pub mod store;
pub mod text;
pub mod viewer;
