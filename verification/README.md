# voices3r

Logic of the firmware of the M5Stack ATOM VoiceS3R, a hands-free voice terminal, with
its behaviour stated in contracts and proved by Verus.

The device listens for two wake words, "Sophia" and "Jarvis", or a button press,
records a command until the speaker falls silent, sends it to a PC server as 16 kHz
mono PCM and plays the spoken reply. One byte before the reply can set the volume or
enter speaker mode, transcribe mode or a transcribe stream. A device without a network
raises the access point `VoiceS3R` with a setup page for up to five WiFi networks.

- `src/` is the library: what is decided and computed. The machines in `boot`, `turn`,
  `sessions`, `storage` and `wakeword` name the action that they wait for and take what
  came of it; their laws are the proof functions that start with `law_`.
- `tests/` runs the library on concrete values.
- `app/` is the device around it: I2S, I2C, NVS, WiFi, HTTP and TCP. It expects the
  prompts `assets/prompt_ap.pcm` and `assets/prompt_ready.pcm` and the page
  `app/control.html`.
  Built with `VOICES3R_I2CSCAN` set, the device scans the I2C bus instead.
