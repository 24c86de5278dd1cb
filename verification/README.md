# fido2kpxc

fido2kpxc unlocks KeePassXC databases on macOS with a FIDO2 security key. The database passwords live
in a vault file, encrypted under a random data key. Each enrolled security key wraps that data key with
its hmac-secret output, so any of them opens the vault with its PIN and a touch.

The rules of the program are a library verified with Verus. The program around it draws panels, reads
and writes files, and talks to security keys and to KeePassXC.

## Layout

| Place | What it holds |
|-------|---------------|
| `src/crypto.rs` | Secrets that wipe themselves, XChaCha20-Poly1305, randomness, base64 |
| `src/vault.rs`, `src/vault/` | The vault, its file layouts, and the laws that hold across operations |
| `src/config.rs`, `src/path.rs` | The config file and paths |
| `src/fido.rs` | Choosing a security key, its answers, and its errors |
| `src/kpxc.rs`, `src/walk.rs` | Recognizing KeePassXC's password prompt and filling it |
| `src/ops.rs`, `src/cli.rs` | What the commands check and say |
| `src/panels.rs`, `src/ui.rs`, `src/ui/` | The menu-bar app: panels, menu, and the state machine of its flows |
| `src/release.rs` | Signing, packaging, and releasing |
| `src/text.rs`, `src/error.rs` | Text primitives and error messages |
| `tests/` | Tests on concrete values |
| `app/` | The program: terminal commands, the menu-bar app, and the build tasks |

## What is proved, and what is trusted

Every function of `src/` has a contract over plain sequences of bytes and characters. Public proof
functions state what holds across calls, such as that a password opens with every enrolled key after it
was set, that a removed key opens nothing, and that a flow which is under way blocks every other.

Trusted are the contracts of the wrappers around outside crates: `zeroize`, `chacha20poly1305`,
`getrandom`, `base64`, and `toml`, and of a few functions of `std`. Each wrapper says what it claims.
