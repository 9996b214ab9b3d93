# rust_event_stream

The rules of a service that takes events over HTTP, gathers them into batches and stores each of
them once. The rules are a library in `src/`, written and proved in Verus. What talks to the
network, the clock and the database is in `app/`.

| Module | What it holds |
| --- | --- |
| `domain` | events, and the rules that an event must meet |
| `storage` | what storing a batch means, and the laws of it |
| `postgres` | storing a batch by one insertion and one look-up |
| `memory` | a storage in memory |
| `pipeline`, `worker_laws` | the worker that gathers batches, its answers, and what holds over its life |
| `http`, `http_laws` | who may ask, what is answered, and what the answers tell |
| `trace`, `metrics`, `headers` | request ids, counters and header values |
| `json`, `text` | JSON values and small rules on text |

The service reads `DATABASE_URL` and `API_KEY` from the environment and listens on
`127.0.0.1:3000`.
