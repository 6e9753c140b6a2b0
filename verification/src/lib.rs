//! A birthday greeting service: it keeps one date of birth per username and
//! tells each user how many days remain until their next birthday.
//!
//! The modules are layered leaf first. [`calendar`] holds dates and the day
//! counts between them, and [`countdown`] the distance to the next
//! anniversary of a day. [`username`] holds the rule for usernames,
//! [`greeting`] the sentence that a user is greeted with, [`reply`] the
//! answers of the service and [`store`] the table of birthdays. [`views`]
//! decides the two requests over them, and [`config`] makes the address of
//! the database.

pub mod calendar;
pub mod config;
pub mod countdown;
pub mod greeting;
pub mod reply;
pub mod store;
pub mod username;
pub mod views;
