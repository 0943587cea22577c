# stm32_quad

The flight logic of a small STM32 quadcopter (stm32f103 board, MPU-6050 IMU,
Bluetooth serial link, four coreless motors), with its behaviour stated in
contracts and proved by Verus.

- `src/` is the verified library:
  - `orientation`: single-precision values carried by their bit pattern, the
    pitch/roll orientation and its eight-byte little-endian form, with both
    round-trip laws;
  - `motors`: the four motors and the bit set of enabled motors;
  - `state`: the commands and the flight state they drive, with the command
    heartbeat that cuts the throttle when commands stop coming, and the laws
    that relate commands to each other and to the throttle;
  - `telemetry`: the receive buffer of the ground station that gathers
    orientation frames chunk by chunk;
  - `address`: the Bluetooth address of the board from its hex form.
- `app/` holds what the library does not: the serde/postcard wire encoding,
  the floating-point attitude filter and motor mixing, the board's task
  bodies over embedded-hal, and the Bluetooth client.
- `tests/` runs the library on concrete values.
