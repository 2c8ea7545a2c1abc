# hope_core

Core logic of the Hope agent, verified with Verus.

| Module | What it holds |
| --- | --- |
| `failover` | Why a model request failed, how it is retried, and which auth profile serves the next one |
| `web_search` | DuckDuckGo: result pages, instant answers, rate-limit cooldown and the course of a search |
| `tz_convert` | Timestamps in JSON values, told in the user's time zone |
| `user_config` | The user's profile, what the assistant is told of it, and the user's time zone and date |
| `crash_flush` | Which signals end the process, and what is saved on the way out |
| `local_embedding` | The local embedding models that this build does not have |
| `json`, `text`, `time` | JSON values, text functions, instants and dates |

The library does no I/O. Clocks, random numbers, replies of servers and the state of the host are
arguments; `app/` reads them, holds the shared state, and performs what the library decides.

Every executable function states what it returns. Laws that span several functions stand as public
proof functions at the end of the modules they belong to.

What is taken on trust is marked `external_body` or `assume_specification`, each with a comment that
names the function behind it: `str::to_lowercase` and `String::push` of the standard library,
`encode` and `decode` of `urlencoding`, the parser and the values of `serde_json`, and the parsing
and formatting of times of `chrono` and `chrono-tz`.
