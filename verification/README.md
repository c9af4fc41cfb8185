# osa2cal

A command-line tool that syncs college schedules from OpenScheduleAPI to a
CalDAV calendar or an `.ics` file, with its logic verified by Verus.

- `src/` is the verified library:
  - `text.rs`: decimal numbers, zero padding, iCalendar text escaping;
  - `datetime.rs`: dates and times as plain values and their text forms;
  - `caldav.rs`: calendar URLs, the CalDAV requests and what the replies mean,
    the iCalendar text of one event;
  - `config.rs`: the settings and how they are loaded and saved;
  - `schedule.rs`: lessons and days, the CalDAV event of a lesson, the
    terminal listing;
  - `ics.rs`: the `.ics` export, built with the `icalendar` crate;
  - `cli.rs`: periods, required settings, the steps of a sync.
- `app/` is the program: argument parsing, the settings file, HTTP to the
  schedule API and the CalDAV server, colored output.
- `tests/` exercise the library on concrete values.
