# zeron

The decisions of the `zeron` program, as a Verus library: every function in `src/`
carries a contract, and Verus proves it.

| module | what it decides |
| --- | --- |
| `mode` | the shape of a process and how it logs |
| `files` | what log files are called, when they are rotated, when they are swept |
| `open` | the steps by which a process claims its log |
| `contention` | what holds where several processes claim theirs at once |
| `config` | what the environment configures |
| `sync` | what `zeron sync` prints |
| `panics` | what the log says of a panic |
| `console` | which standard handles survive attaching to a console |
| `json`, `text`, `places` | reading JSON values; numbers, white space, comparison; places picked out of a list |

Two outside crates are called from the library: `chrono` writes dates, and
`serde_json` reads the members of JSON values. What is taken from them without proof
stands in the contracts of `files::format_date` and of the items at the head of
`json`.

`app/` is the program around the library: the command line, the environment, the
disk, the network, the subscriber and the panic hook. `tests/` runs the library.
