# Matter example

The verified logic of two Matter programs: a client that commissions and controls devices, and a
bridge that presents one or two lights. Verus proves every function of `src/` against its contract;
`src/trusted.rs` holds what is believed without proof, all of it about code outside this crate.

## The library

| Module | What it holds |
| --- | --- |
| `app`, `app_model`, `app_laws` | the terminal client as a state machine, its model, and what holds of it |
| `ui` | what the terminal shows |
| `invoker` | the command-line client |
| `state`, `state_laws` | what the clients remember, and the text it is stored as |
| `setup_code` | passcodes, manual pairing codes and QR payloads |
| `matter`, `endpoints`, `endpoint_laws` | commands to a device, and reading its endpoints |
| `network`, `listing` | devices on the local network |
| `utils`, `utils_laws`, `types` | addresses, names, selections, and the types of the client |
| `bridge`, `light_on_off`, `mdns` | the bridge, its lights, and the interface it is announced on |
| `text`, `number`, `lists` | texts, numbers and lists |

Whenever the client needs something from outside (a scan, a connection, a file), the library returns
a step that says what; the program does it and tells the library how it went.

## The programs

`app/` is ordinary Rust around the library. Its first argument names the program:

* `clientui` (the default): the terminal client.
* `invoker "<device name>" "<endpoint name>" "<action>"`: one command to a saved endpoint.
* `list` and `connect`: small scanners.
* `bridge`: the bridge. With `SECOND_LIGHT_ENABLED=true` it has two lights. It needs the crate
  `rs-matter`, which is not among the dependencies here.

Both clients keep their state in `client-state.toml`.
