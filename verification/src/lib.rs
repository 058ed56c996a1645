//! Core logic of a home information screen: the calendar week view built
//! from Google Calendar events, the slideshow catalogue, weather icons,
//! Google OAuth token handling and cache freshness.

pub mod time_model;
pub mod clock;
pub mod calendar;
pub mod text;
pub mod slideshow;
pub mod weather;
pub mod http_error;
pub mod config;
pub mod oauth;
pub mod calendar_service;

