# apple_sep

The logic of a driver for Apple's Secure Enclave and always-on processor, written
in Rust and verified with Verus.

The library (`src/`) holds the wire formats, the stores, and every procedure of
the driver as a state machine: a procedure is handed what happened and says what
is to be done next. It touches no hardware. What the outside world supplies (the
contents of memory and files, answers, digests, random bytes, the time) comes in
as arguments, so that each contract holds for every value of them.

- Messages and transactions: `proto`, `mailbox`, `rxring`, `control`, `transfer`,
  `ool`, `sep`, `shmem`.
- Persistent state: `store`, `store_file`, `xart_store`, `xart_locate`,
  `xart_apfs`, `xarm`, `xarm_link`, `catacomb`, `keybag`, `persist`.
- The key store: `image`, `der`, `sks`, `exchange`, `bag`, `scrd`, `credential`,
  `refkey`, `refkey_seal`, `trusted`, `fv`, `fv_volumes`.
- Fingerprints: `sensor`, `sbio`, `sbio_link`, `bio`, `session`, `bringup`,
  `vault`, `capture`, `touchid`.
- The always-on processor: `afk_ring`, `epic`, `afk`, `aop`, `aop_setup`,
  `aop_driver`, `aop_receive`, `aop_life`, `aop_sensors`, `aop_als`, `aop_las`,
  `als_calibration`.
- The machine: `profile`, `dt`, `hwrng`.
- Bytes: `bytes`, `crc`, `uuid`, `errno`.

Laws that relate several functions, or speak of a whole run of them, stand beside
them as public proof functions: what is written is read back, a write may be cut
at any of its steps, a tag that was given up on is given to no other request
before its late answer has come, a report goes to the listener of its service and
to no other, memory that a processor may still write to is never freed.

`app/` is the ordinary Rust around the library: files, mailboxes, buses, and the
loops that carry out what the library asks for. `tests/` runs the library.
