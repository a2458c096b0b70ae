# smarthome

A library for smart plugs on the local network, and a web server around it.

The library speaks the plugs' protocol (frames, commands, answers, energy readings, rules kept on
a plug), keeps automation rules (fixed times, the sun, light levels), draws the week that follows
from them, and answers a small programming interface for devices and groups. Everything under
`src/` is verified with Verus: each function states what it returns, and the `law_` functions
state what holds across several of them.

## Layout

| Modules | What they hold |
| --- | --- |
| `text`, `json`, `quantity`, `clock`, `date` | texts and numerals, documents, numbers, local time |
| `wire`, `client`, `plug`, `energy`, `rules`, `error` | the protocol of the plugs |
| `mock` | plugs that exist in memory only |
| `automation`, `engine`, `weather` | rules, a round of automation, forecasts |
| `schedule`, `spans`, `calendar`, `omission` | timed events, the states between them, the week |
| `forms`, `views`, `notices`, `group` | what the pages take and show |
| `api`, `control`, `report`, `inventory` | the programming interface |
| `database`, `migration` | what is stored, and schedules that move from a plug to the server |

`app/` is the server: sockets, HTTP, SQL, templates and floating point. It hands plain values to
the library and takes plain values back.

## What is taken on trust

`serde_json` reads and writes documents, and the standard library trims texts, appends characters,
counts durations, tells the time and words its errors. Each of these calls stands behind one
declaration whose doc comment says what is assumed of it.
