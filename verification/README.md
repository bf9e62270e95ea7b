# f429zi_logic

The verified logic of an STM32F429ZI (NUCLEO-F429ZI) firmware that reads a
PT100 through a MAX31865 and drives three LEDs from a button. The pieces for
the planned web dashboard and Web-OTA updates (address and port parsing, the
stored configuration, the login token, OTA staging) are here too; the web
server tasks themselves are not written yet.

- `src/` — the library, proved with Verus:
  - `parse` — IPv4 dotted-decimal and port parsing,
  - `config` — the persisted network configuration and its 77-byte record,
  - `auth` — the web login token `base64("user:pass")`,
  - `leds`, `buttons` — the LED display state machine and the button gestures,
  - `fault` — reset-reason decision and the CCM marker word,
  - `ota` — A/B slot selection, chunk placement, CRC-32 check of a staged image,
  - `sensor` — the MAX31865 register protocol,
  - `dfu`, `clock` — the DFU request word, the 168 MHz clock plan and the
    firmware-size report,
  - `fixed` — contracts for the `heapless` fixed-capacity string and vector.
- `tests/` — tests of the library.
- `app/` — the firmware around it: Embassy tasks, peripherals, Flash access,
  the floating-point RTD math.
