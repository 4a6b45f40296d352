# scaffold_ai

A GitHub App that triages incoming pull requests: it classifies each PR, runs
deterministic policy checks, and posts a single comment with labels, or routes
the PR to a human when it isn't confident. A language model is asked for
judgment, and usage is metered.

The library (`src/`) is verified with Verus. It holds every rule and decides
every step; it makes no network or database call. The binary (`app/`) makes the
calls and hands the replies back.

| Module | What it holds |
|---|---|
| `agent` | one triage run: gather, policy-check, classify, decide, act |
| `policy` | the deterministic policy checks |
| `config`, `server_config` | `.scaffold.toml` with its defaults; the environment |
| `prompts`, `wire`, `anthropic` | prompts, schemas and the retry rules of a model call |
| `autumn` | billing: checks and metering, with one self-heal |
| `github` | snapshots, the sticky comment, diagnostics |
| `webhook`, `routes` | signatures, payloads, and what a delivery is answered |
| `store` | the job queue, the audit log and the usage journal |
| `worker` | what becomes of a claimed job; re-tracking of journaled usage |
| `smoke` | redaction and shapes of recorded exchanges |
| `pr`, `triage`, `error`, `score`, `time`, `json`, `text` | the types and operations underneath |

Work that alternates with outside calls is written as a state and a `step`: the
state says which call comes next, the reply takes it on. The functions named
`law_…` state what holds of such runs as a whole.

What is taken on trust are the contracts of the outside functions that the
library calls: HMAC-SHA256, hexadecimal, globs, calendar arithmetic, status
lines, PEM keys, and three functions of the standard library. Each is marked
`external_body` or `assume_specification` and says what it claims.

The default model is set when the binary is built, in `SCAFFOLD_DEFAULT_MODEL`,
or at run time in `ANTHROPIC_MODEL`. The tables are created on startup.
