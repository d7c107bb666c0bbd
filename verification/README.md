# CalStack

A calendar server: CalDAV and CardDAV for clients, a JSON API for everything
else, one PostgreSQL database behind both.

The rules of the server are a Verus library. Each function states what it
gives for every input, and Verus proves that the code does so. What holds of
several functions together stands in public proof functions, next to the
functions they speak of.

- `src/` is the library. But for the clock and for random identifiers it reads
  nothing itself: requests, rows and answers of other services come in as plain
  values, and decisions, documents and texts go out.
- `app/` is the server around it: commands, routes, SQL, mail, HTTP, and the
  worker that runs the queue of jobs.
- `tests/` run the library on concrete values.
- `extras/web/` holds the pages of the web interface, which the server puts
  together with their shared header, menu and footer.

## Where things are

| Module | What it decides |
|---|---|
| `auth`, `login`, `passkeys`, `totp` | who a request comes from and what it may do |
| `calendars`, `series`, `subscriptions` | calendars, imported files, calendars that are fed from a source |
| `events`, `event_view`, `recurrence`, `freebusy` | events, their occurrences, busy time |
| `tasks`, `journals`, `feed`, `ics`, `shares` | tasks, journals and what is shown of them to everyone |
| `alarms`, `reminders`, `jobs` | when alarms fire, who is told, what the worker does next |
| `dav`, `rewriting`, `xml`, `contacts`, `categories` | calendar and contact clients, address books |
| `rules`, `webhooks`, `scheduling`, `changes` | what follows from a change, and who hears of it |
| `admin`, `audit`, `capture`, `attachments`, `search`, `places`, `openapi`, `web`, `config`, `error` | the rest of the API |
| `json`, `text`, `time`, `encoding`, `ids`, `url` | documents, texts, times and identifiers |

## What is taken on trust

Times are read, formatted and parsed by chrono and chrono-tz, identifiers by uuid,
Base64 by base64, URLs by reqwest's `Url`, XML by xmltree. Each call stands in
a small function whose contract says what is assumed of it; what has no short
description is only given a name.
