# Nux-Auth

Encrypted and authenticated application tunnels between servers, without a VPN and
without a central sign-on server. A *Guard* protects local services behind a whitelist and
roles; a *Client* proves its Ed25519 identity and redirects local ports through tunnels; a
*relay* makes Guards behind a NAT reachable; a *gateway* distributes the configurations of
the Guards.

## Layout

- `src/` is the library `nux_core`, verified with Verus: every rule of the system as a
  function on plain values with a contract.
  - `auth`, `peer`, `identity`: challenge-response authentication and whitelist.
  - `protocol`: the messages, their wire format, and the codec.
  - `tunnel`: registry of services, header of a tunnel, admission of streams and their
    limits.
  - `node`: a node as step functions from an event of the network to an action.
  - `rate_limit`: sliding-window limit on inbound connections.
  - `cli`, `relay`, `gateway`: the rules of the three programs.
  - `table`, `text`, `bytes`, `fold`, `addr`: what these are built on.
- `app/` is the program around the library: network, files, clocks, HTTP, database.
- `tests/` runs the compiled library with its real dependencies.

## What is proved

Each public function states its result for every input, as far as the input decides it.
Where the clock, random bytes or the kernel decide, functions of their own state what is
asked of them and what is made of every reply. The properties that span several
functions are public proof functions, in the `laws` modules and next to the types they
speak of. Among them:

- a challenge is good for one answer, and only for the peer, the nonce and the window it
  was issued for; a peer in the whitelist that answers in time is let in;
- a refused peer gets no byte that tells why, and a stop looks like an unknown peer;
- a revocation or a change of roles takes effect at once;
- an address never gets more than its rate over any window, and the table of addresses
  stays bounded;
- the streams in progress never exceed their limits;
- what the codec writes is read back, and a header of a tunnel too;
- a configuration of the gateway that a Guard applies to its file is the one it loads, and
  the rest of the file says what it said.

What the library takes from other crates (cryptography, bincode, multiaddr, TOML editing)
stands behind small functions marked `external_body`, each with a comment that says what
is believed of it.
