# Lion Assist

A bounded personal assistant: local email tiers, research downloads, model routing, optional
speech, and a resident agent with scheduled workflows. The rules are a library verified with Verus;
the program around it does what they ask for.

## The library (`src/`)

The library touches neither the disk nor the network. Each workflow is a function from a state and
an event to the next state and what is needed next; its contract gives that function in full, so
that a step can be read without its code.

| Module | What it decides |
| --- | --- |
| `base::limits` | the store: names, quota, staged writes, listing, bounded reads |
| `base::config`, `agent::config` | which settings are admitted, and the first fault of those that are not |
| `base::models` | which model is asked, how a request is framed, what a reply says |
| `base::controller` | the tasks of the command line |
| `base::scheduler` | the pace of requests |
| `tasks::email` | what a message says and how it ranks, once for the same bytes; a scan of a mailbox |
| `tasks::aerospace` | searches of arXiv and Crossref, saving a paper once, compression |
| `tasks::events` | events on lines, read in pieces, and the loop that answers them |
| `agent::runtime` | the queue, the daily budget, announcements, status, voice commands |
| `agent::ticking` | which job is next and what becomes of it |
| `agent::intake` | new work: due research, mail, papers, questions on Discord |
| `agent::errands` | what each kind of job does, step by step |
| `agent::commands` | commands of the user |
| `agent::discord`, `agent::email`, `agent::research` | messages, moves, feeds |
| `agent::daemon` | the resident process and its control socket |
| `agent::cursors` | what the place of a Discord channel stands for |
| `agent::laws` | what holds of the agent as a whole |
| `agent::deeds` | what it does outside, and what it records first |

Calls into outside crates stand behind small functions whose contracts are believed and not proved.
Each says in its comment which outside function it calls and what it claims of it: digests
(`sha2`), JSON (`serde_json`), addresses (`reqwest::Url`), mail (`mailparse`), HTML (`scraper`),
compression (`flate2`), and lower case and UTF-8 of the standard library.

Laws are public proof functions named `law_…`. They state, among other things, that a write is
whole or not at all and stays within the quota, that higher tiers win and more text never lowers a
tier, that the same bytes are organized once, that a move loses no message, succeeds where the message is there and is undone by
going back, that every line of input has one answer and only the end or a request to quit stops the
loop, that model calls are charged before they are made and never exceed the day's budget, that the
place of a Discord channel passes no message that was not handled, that no reply is sent twice or
without its disclosure, that a known phrase is its command however it is said, and that the queue,
the announcements and the retries stay within their bounds.

## The program (`app/`)

Files, sockets, processes, threads, HTTP, the settings file, and the JSON forms of the library's
types. Its commands are `status`, `run`, `ask`, `email`, `watch-email`,
`research`, `discord`, `summarize`, `speak`, `listen`, `list`, `show`, `doctor`, `daemon`, `agent`.

## Tests (`tests/`)

`tests/agent.rs` runs the agent in a world held in memory; `tests/constraints.rs` covers storage,
settings, email, research, models and tasks; `tests/refusals.rs` gives the input for each refusal.
