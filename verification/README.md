# dend-p2p

A small virtual private network. Clients register with a server, get a virtual IPv4 address
from it, and exchange IP packets through it or, where a hole can be punched, directly.

The decisions are a library, `src/`, whose contracts are proved with Verus. The sockets, the
network device, the files and the HTTP server around it are the program, `app/`.

| module | what it holds |
| --- | --- |
| `addr` | addresses, their text, CIDR notation, the arithmetic of the address pool |
| `text`, `clock`, `table` | decimal numbers and strings, elapsed time, values by key |
| `protocol` | the messages, and the destination of an IP packet |
| `config`, `cache`, `tunnel` | the configuration, the identity of a client, the network device |
| `server`, `server_laws` | the server, and what holds of it whatever it is sent |
| `basic_server` | a server that only relays |
| `client`, `client_laws` | a client with one peer, and what holds of it |
| `mesh_client` | a client with a connection to every other client |
| `webui`, `static_assets` | what the control panel shows and keeps, and the files that it serves |

Server and clients are state machines: they take a packet, an IP packet of the local device, or
the passing of time, and say what is to be sent. Every function states its result as a step on
the mathematical view of the state; the laws are public proof functions over those steps.

The one thing that is taken on trust is that the `uuid` crate writes a random UUID in its usual
form.

## Running

`config.toml` of a server:

```toml
mode = "server"
server_addr = "0.0.0.0:9696"
token = "my-secret-token"
tun_name = "dend0"
cidr = "10.10.0.0/24"
```

and of a client:

```toml
mode = "client"
server_addr = "203.0.113.1:9696"
token = "my-secret-token"
tun_name = "dend0"
webui = true
```

The settings may also stand in a table `[server]` or `[client]`.

`dend-p2p --config config.toml` needs the right to create network devices; on Windows
`wintun.dll` has to lie beside it.
