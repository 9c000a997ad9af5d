# registrar

The logic of a registrar for on-chain identities, verified with Verus.

A registrar is asked, through a watcher of the chain, to judge identities. It
sends each account that an identity claims a challenge, keeps display names
apart, takes commands from its admins over Matrix, and hands the judgement to
the watcher once every challenge is met.

* `src/` is the library: what the registrar decides and computes, with its
  contracts. Where a decision needs a database, a socket or a chat room, the
  library says what is to be done next and goes on with what came of it. The
  functions named `law_..` state what holds of it as a whole.
* `app/` is the service around the library: the settings, the Matrix bot, the
  connections to the watchers, and the similarity of two names, which is a
  floating-point number.
* `tests/` runs the library on concrete values.

The library calls `hex` for codes and display names and `rand` for codes.

## Admins

Admins are listed in `config.yaml` by their Matrix names. Commands are taken
from them alone:

* `status <ADDR>` shows the verification state.
* `verify <ADDR> <FIELD>...` verifies fields by hand: `legalname`,
  `displayname`, `email`, `web`, `twitter`, `matrix`, or `all` for the full
  identity.
* `help` shows a help message.
