# storage_node

A node that keeps files in chunks and serves them to whoever the chain allows.
Clients reach it over QUIC, WebTransport and HTTP; a contract on the chain says
who owns a file, who may download it, and when it is gone.

`src/` is the node's logic, verified with Verus. It touches no socket, disk or
clock. Whatever waits for the world is a step function: it takes the state of a
piece of work and an event (a reply of the chain, a chunk that was read, a frame
that came in), and gives the next state and the action to take.

| module | what it decides |
| --- | --- |
| `download_manager` | how a download session is opened, expires and is used up |
| `ethereum` | who may download and upload, what is confirmed on the chain |
| `merkle` | whether a chunk belongs to a file |
| `crypto` | hex, hashes, addresses, recovery of a signer |
| `tracker` | when the node's share of a file is complete |
| `storage`, `listing` | where chunks and logs lie on disk |
| `frame`, `wt_server` | WebTransport frames and requests |
| `server`, `encoding` | QUIC connections and commands |
| `http_server` | chunks over HTTP |
| `listener`, `registry` | events of the chain, and of which contracts |
| `sweeper`, `retry`, `node` | abandoned sessions, waiting confirmations, batches |
| `config`, `quic` | settings, identity and limits |
| `cache` | what the node keeps in memory |
| `models`, `text` | messages, texts and numbers |

Laws that span several functions are public proof functions whose names start
with `law_`. Functions of outside crates stand behind small wrappers, whose doc
comments say what is taken from them without proof.

`app/` runs the node: it performs the actions and reports the events. `tests/`
runs the library on concrete values.
