# depot

A log collector. A client follows a log file and sends each new line, as a
JSON message, to a server over QUIC; the server frames the messages out of what
it receives, picks the input whose tag the message carries, runs that input's
transformation module, and delivers the result to Kafka or to a file.

The library under `src/` is verified with Verus:

- `text`: trimming, newline escaping, decimal formatting, character helpers.
- `queue`: the FIFO message queue, with its laws.
- `json`: JSON string literals and the framing of JSON objects in received text.
- `message`: the wire message, how a client builds and cuts it, how a server
  frames it, and the law that the server frames back what the client sent.
- `config`: keyed string options (with read-after-write laws) and the
  configuration records.
- `transform`: the transformation modules (regular expression, demonstration).
- `server`: input selection, transformation and delivery planning.
- `schema`: consumed Kafka messages as an arrow record batch.

`app/` holds the programs: the QUIC server and client, the echo server, the TCP
queue demonstration, the CSV and Parquet sinks, and the serde forms of the
configuration files.
