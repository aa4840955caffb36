# cubeled

Firmware logic for CubeLED, a LED cube made of six PCBs (25 WS2812B LEDs per
side) driven by an ESP32-C3, with an ADXL362 accelerometer. The library in
`src/` is written in Verus and verified; `app/` is the firmware around it
(peripherals, embassy tasks, Wi-Fi, flash) and the host-side OTA push tool.

Modules of the library:

- `adxl362`: the accelerometer driver. The bus and delay traits record each
  exchange and each delay in the bus's and the delay's own history; the
  driver's contracts state, over that history, the SPI frames each operation
  sends, how replies are decoded and which bus error is reported.
  `adxl362::laws` proves that every read-modify-write changes only the
  register fields it is about.
- `layout3d`, `vec3`: the LED positions in space, grids walked row by row on
  an integer millimetre lattice.
- `color`: 8-bit colour arithmetic through the `lib8tion` and `color8` crates.
- `led_control`: the LED effects (Larson scanner, palette, rainbow, pulse) and
  the LED task's command handling.
- `ota`: the update wire protocol, the chunked image receiver, and the update
  decisions.
- `sleep_control`: why the CPU is awake.
- `tasks`: the button, motion-sensor and Wi-Fi state machines.
