# active-call

The decision logic of a SIP voice-agent node, verified with Verus.

- `src/` is the library. Its contracts are stated over plain values and views:
  legs and dialogs of calls (`call`), tracks, processors and mixing (`media`),
  the configuration with its trunk rules and access lists (`config`), handing
  clients on to other nodes (`handler`), and the table of learned addresses
  (`useragent`).
- What several holders share (a leg, the chain of a track) is kept once in a
  table; a holder names its place there, and a clone names the same place.
- Functions whose names begin with `law_` state what holds of several functions
  together.
- Calls into other crates stand behind small functions marked
  `#[verifier::external_body]`; their doc comments say what is taken on trust.
- `tests/` runs the library on concrete values.
- `app/` is the node around it: sockets, tasks, files, the command line, and the
  floating-point parts of the audio path.
