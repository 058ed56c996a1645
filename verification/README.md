# info_screen

A home information screen: a web page that shows a picture slideshow, the
weather from MET Norway and the week's events from Google Calendar.

- `src/` is the verified library (Verus): the calendar week view
  (`calendar`, `calendar_service`), the date and time model with its chrono
  and chrono-tz calls (`time_model`), the slideshow catalogue (`slideshow`),
  weather icons (`weather`), settings (`config`), Google OAuth forms and
  tokens (`oauth`), cache freshness (`clock`) and text helpers (`text`).
- `app/` is the web server (axum, tokio, reqwest, serde) around it.
- `tests/` runs the library on concrete values.
