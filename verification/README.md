# contixis

Contixis shares one keyboard, mouse and clipboard between a host PC and the
agent machines placed around its screens. The host watches its cursor; when the
cursor leaves a monitor toward an agent's screen, focus moves to that agent and
the host forwards its input there until the cursor comes back or Escape is
pressed. Agents pair with the host once, with a six-digit PIN; after that the
host's certificate authority has issued them a certificate and they reconnect
without a PIN.

## Layout

- `src/` is the library, verified with Verus. Each public function states its
  behaviour in `requires` / `ensures` over mathematical models (`Seq`, `Map`,
  views of the data types), and the laws that relate several functions are
  public proof functions (`lemma_*`).
  - `framing`, `proto`, `codec`: the wire format (`[type][3-byte length][payload]`),
    message codes, zstd compression.
  - `session`, `handshake`, `pairing`, `pki`, `store`: the session state
    machine, the host's and the agent's handshake steps, PIN pairing with an
    HMAC over the certificate request, the certificate authority and device
    identities, and the trusted-peer stores.
  - `spatial`, `grid`, `monitors`, `host_view`, `focus`, `cursor`, `input`,
    `inject`, `evdev`: screen layout and edge transitions, focus routing, the
    agent's cursor, input events and their injection.
  - `clipboard`, `discovery`, `device`, `agent_state`, `pool`, `config`: clipboard
    arbitration, mDNS names and the hosts an agent sees, the device registry,
    what the agent reports, a buffer pool, defaults.
  - `text`, `scan`, `keyed`, `crypto`, `clock`: helpers, and the calls into
    outside crates behind small trusted wrappers whose contracts say what the
    crates' sources show.
- `tests/` runs the library on concrete values.
- `app/` is the program around it: command line, QUIC transport, mDNS, device
  I/O, files, and the host and agent loops that perform what the library
  decides.
