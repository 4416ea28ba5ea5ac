# weather

A command-line tool that shows the current weather, or the forecast for a
day up to five days ahead, from OpenWeather or AccuWeather.

- `src/` is the verified library: provider names, dates, the configuration
  (API keys and default provider), the choice of provider, the requests'
  addresses, which forecasts are kept for a day, country names and the report.
- `app/` is the program around it: command-line parsing, prompts, the
  configuration file, the HTTP requests and their JSON answers, and the
  floating-point averages.
- `tests/` runs the library on concrete values.
