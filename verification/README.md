# `ads`

A client for [Beckhoff](https://beckhoff.com) TwinCAT devices and other servers
speaking the ADS (Automation Device Specification) protocol, with a protocol core
that is verified with [Verus](https://github.com/verus-lang/verus).

## Layout

- `src/` is the verified library.  It builds requests, checks replies and takes
  them apart, keeps track of notification handles, decodes task telemetry, and
  says what a connection has to do next.  It does no input or output.
  - `wire`, `netid`, `commands`: how numbers, addresses and structures stand in a
    packet
  - `comms`, `source`, `closing`, `reader`: the state of a connection, from the
    first message to the last
  - `device`, `sumup`, `utils`: operations on a device, one at a time or several
    with one request
  - `task_info`, `symbol`: PLC task telemetry
- `app/` is the connection itself: TCP socket, reader thread, channels, and the
  methods that send a request and wait for the reply.
- `tests/` runs the library on packets.

An operation comes in two parts.  `Device::read_request` gives a `Call`, which
holds the packet to send; `Device::read` takes the reply to that call apart.
