# sipcord_bridge

Connects SIP phones with Discord voice channels, and posts incoming faxes to
Discord text channels.

`src/` is the verified library. It holds the state of the bridge and every
decision on it, as functions from state and event to state and actions:

- `call`: the calls, the bridges to voice channels, outbound calls, fax
  sessions and the health check
- `fax`: the audio port of a fax call, the course of a reception, fax errors
- `routing`: what the backend decides, asks for and is told
- `services`: the registrar and the credential cache
- `transport::sip`: fork groups, channel audio, REGISTER handling, Contact
  headers, NAT fixups and the players
- `table`, `ring`, `text`, `net`, `ids`, `time`: the ground that these stand on

Tables are those of `dashmap`, ring buffers those of `rtrb`, the credential
cache that of `moka`, digests are made by `md-5` and nonces by `rand`. What is
believed of these crates, and of `String::push` and `str::from_utf8` of the
standard library, stands in the contracts of the functions that call them; the
rest of the library is proved. The functions named `law_...` state what holds of
the library as a whole.

`app/` runs the library: tasks, sockets, locks, the routing backend, and the SIP
stack `pjsua`.

`tests/` runs the library on concrete values.
