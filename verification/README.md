# imaged

A self-hosted disk imaging server: machines boot over the network into an
imaging agent, which captures a disk into an image or deploys an image back,
one machine at a time or to many at once over multicast.

The decisions of the server are a library verified with Verus (`src/`); the
program around it (`app/`) does the I/O: HTTP, TFTP, SQLite, files, multicast
sockets and wake-on-LAN.

## Library (`src/`)

- `domain` — images, tasks, hosts and groups; parsing stored statuses,
  rolling the per-host states of a task up into one, and gathering the rows
  of the image/partition join into images.
- `registry` — the table of connected hosts, where a stale connection's
  cleanup never removes a newer connection.
- `multicast` — the single multicast worker slot and its decisions, the
  transfer plan of a task and its progress in bytes, and naming receivers.
- `client`, `dashboard` — the checks the agent and dashboard operations make.
- `pxe`, `tftp` — the iPXE scripts and which boot file a TFTP request asks for.
- `events` — reading the data of server-sent events out of a byte stream.
- `wake`, `harness` — wake-on-LAN targets and their magic packets, and MAC
  addresses for test hosts.
- `shared` — the error type and its HTTP mapping, database error mapping,
  log filters, multicast ports and the events sent to agents.
- `server` — the statuses and task kinds of the first-generation server.

## Program (`app/`)

`imaged serve` runs the HTTP server (network boot, agent API under
`/client`, dashboard API under `/api/ui`) and the multicast sender;
`imaged tftp` serves the iPXE binaries over TFTP.
