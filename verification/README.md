# bevygap

Matchmaking for game servers that run on Edgegap, with NATS in between.

The library decides and computes, and Verus proves the contracts of its functions. The exceptions
are the small functions that each make a call into another crate or the standard library: what their
contracts say of that call, and their doc comments in words, is believed.

- `nats`, `nats_setup`: the names of subjects, buckets and streams, the keys of certificate
  digests, and how the connection and the buckets are set up
- `session_service`, `session_request`, `session_laws`: how a session request is read, served
  step by step and answered, and what holds of every run of it
- `token`, `private_key`, `settings`: connect tokens, private keys and the netcode identity
- `protocol`: what clients, the matchmaker and game servers tell each other
- `arbitrium_env`, `edgegap_context`, `json`: what a deployment is told of itself
- `admission`, `plugin`: which clients a game server lets in, and what it tells the matchmaker
- `text`, `flags`: text, numbers and flags

Functions named `law_..` state what holds across several functions.

`app/` is the program around the library: the command line, the NATS connection, the Edgegap API
and the Bevy plugin.
