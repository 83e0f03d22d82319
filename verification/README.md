# appd

A daemon that shares USB/CAN adapters (APPI, APPI-2, APPI-2M, Phlox) with clients on the
network over UDP. The logic is a Verus library, proved against its contracts; sockets, USB
transfers and service management stand around it.

- `src/`: the verified library.
  - `bytes`, `text`: big-endian numbers, numbers as text.
  - `types`, `capability`, `device_info`: what devices and daemon speak of.
  - `devices`: the packets, buffers and streams of the adapters.
  - `manager`: the list of connected devices.
  - `protocol`: the packets that clients send and get.
  - `client`, `session`, `stream`: what the daemon knows of its clients.
  - `listing`: the lists that answers carry.
  - `transport`: what the daemon does with a packet.
  - `service`: how the daemon is registered with the system.
- `tests/`: tests of the library.
- `app/`: the program.

`appd run` runs the daemon in the foreground on UDP port 8000, `appd install` and
`appd uninstall` register it with the system and remove it. The log is set up by `APPD_LOG`.
