# imap_proto

IMAP (RFC 3501 and extensions) response parsing and command building, verified with
Verus, plus a small tokio client around it.

## Layout

- `src/parser/`: the response grammar. Each rule is a spec function on bytes
  (`spec_*`) and an executable parser (`p_*`) proved equal to it, with streaming
  semantics: input that ends inside a token asks for more. The public entry points
  (`parse_response`, `quoted`, `envelope`, ...) return the rest of the input and
  the value.
- `src/builders/`: the commands a client sends, with their exact bytes and the
  session state they lead to.
- `src/client.rs`: the decisions of a session: command tags, framing of responses
  in a byte stream, completion of a command, and the state machine of a command's
  response stream.
- `src/round_trip.rs`: what the client writes, the parser reads back (numbers,
  quoted strings, tags).
- `src/types/`: the response types and their mathematical views.
- `app/`: the tokio/rustls connection, the codec and the response stream, which
  drive the verified decisions.
- `tests/`: tests of the library on concrete inputs.
