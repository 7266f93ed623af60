# feetech_servo_sdk

Verified core of an SDK for Feetech (STS/SMS) serial-bus servos.

- `src/` is the library, checked by Verus: packet framing and checksums,
  reply checking, the packets of every bus operation and the decoding of
  their replies, the retry policy of middle-position calibration, and the
  servo table of the simulated bus. `src/frame_laws.rs` proves properties of
  the packet format: every packet balances, a status packet parses back to
  its parameters, and no single corrupted byte is accepted.
- `app/` holds the asynchronous serial controller, the simulated bus with its
  floating-point motion, the `MotorBus` trait, the error type with its
  messages, and the command-line tool.
- `tests/` runs the library on concrete packets.
