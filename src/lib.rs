//! Classifies calendar dates as working or non-working days in Japan:
//! a day is off when it falls on a weekend or appears in a holiday list.

pub mod date;
pub mod holiday;
