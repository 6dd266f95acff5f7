# campus_dashboard

A terminal information screen for a campus: the canteen's menu of the day,
the next departures at a stop, and the weather.

- `src/` is the library, verified with Verus:
  - `mensa`: grouping the day's meals into serving lines, the evening-counter
    flag, the menu address, and the rows of the menu panel;
  - `train`: stop events of the journey planner to departures (Berlin
    wall-clock times), and the rows of the departure board;
  - `weather`: WMO weather codes and the layout of the weather panel;
  - `monitor`: when the menu is fetched again, the quit key, the status bar;
  - `text`: digits, clock and price texts, substring search, UTF-8 lengths.
- `app/` is the program around it: fetching from the services, the threads,
  and drawing with ratatui. The weather readings are floating-point numbers,
  so the graphs and figures of the weather panel are drawn there.
- `tests/` runs the library on concrete inputs.
