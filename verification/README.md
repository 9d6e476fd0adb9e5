# vasak-keyring

The keyring of VasakOS: a Secret Service daemon whose database is encrypted with
AES-256-GCM under a key that Argon2id derives from the master password, a PAM
module that delivers that password at login, and the dialogs that ask for a
password when it was not delivered (the keyring's own, a pinentry and an
ssh-askpass).

- `src/` is the library: what the programs decide and compute, each function with
  its contract, proved by Verus.
- `app/` is the programs: the bus, the socket, PAM, the disk and the windows.
- `tests/` runs the library with the real ciphers.

The modules of the library:

| module | what it holds |
| --- | --- |
| `dbus_api` | the state of the service and every call on it |
| `dbus_api::sesion` | the master password, the write block, the wrong passwords |
| `dbus_api::disco` | the database on disk and when it may be written |
| `dbus_api::transiciones`, `dbus_api::leyes` | what each call makes of the state, and what holds over several |
| `crypto` | the format of the database |
| `session_crypto` | the transport encryption of sessions |
| `derivacion` | the master password from the account password |
| `portal_secret` | the master secret of each application |
| `pam`, `unlock_socket` | both ends of the delivery at login |
| `pinentry`, `ssh_askpass`, `secret_service` | the dialogs' protocols |
| `primitivas` | the calls into the ciphers and hashes |
| `texto`, `mapa`, `secreto`, `errores` | text, maps keyed by it, text and bytes that wipe themselves, kinds of I/O failure |
