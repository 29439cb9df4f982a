# forwarder

A device that lets a remote host reach what listens on its local ports. One WebSocket runs between
the two; HTTP requests, and the WebSocket connections with a terminal that some of them ask for, run
through it as Protobuf messages. A second, simpler protocol tunnels plain TCP connections.

- `src/` is the library. It is verified with Verus: what every message looks like on the wire, what a
  message asks for, what a connection does with what it reads and is given to write, and which
  connections there are.
  - `wire`, `proto`, `items`: the wire format and the messages in it
  - `proto_message`, `tung_message`, `headers`, `header_map`, `web_url`, `text`: the messages as the
    device handles them
  - `conn_state`, `connection`, `connections`, `forwarder`, `device`, `astarte`: the device
  - `tunnel`: the tunnel of TCP connections
  - `vec_map`: a map that keeps its entries in the order in which they came
- `app/` is the program: it opens the streams, moves the messages, and logs.
- `tests/` run the library.

The functions of the library decide, and hand back what is to be done as a value. Functions whose
name ends in `_checked` test what their namesakes require.
