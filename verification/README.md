# yamete

Detects slaps on a laptop from its accelerometer and gyroscope and reacts to them with
sounds, commands and webhooks.

`src/` is the library: every decision the program takes, each function with a contract that
Verus proves. `app/` is the program around it: sensors, sockets, files, audio and the
floating-point signal chain. `tests/` runs the library on concrete values.

Measurements are held in the library as the bits of the numbers (`scalar`); comparing them is
exact there, computing with them is the program's part.

| modules | what they hold |
| --- | --- |
| `scalar`, `text`, `numeral`, `paths`, `meta` | numbers, characters, numerals, paths, ordered settings |
| `sensor`, `report`, `pump` | finding the devices, decoding reports, merging the two streams |
| `tuning`, `filters`, `detector` | the thresholds, the rolling windows, the vote |
| `fixture`, `round_trip`, `archive` | recorded traces as text and as gzip files |
| `config`, `protocol`, `server`, `store` | the configuration, the wire messages, the control socket, the config file |
| `template`, `sounds`, `actions`, `worker` | what a slap sets off, and when |
| `daemon`, `client`, `controller`, `supervisor`, `launchd` | the long-running process and those who talk to it |
| `replay`, `sweep`, `analyze`, `calibrate`, `suite`, `probe` | the tuning tools |
| `error` | what can go wrong |

What is taken on trust is marked where it stands: calls into `flate2` (`archive`), `rtrb`
(`report`, `pump`) and a few of the standard library's string functions (`text`, `archive`,
`actions`).
