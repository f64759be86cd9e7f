# Feather

Feather controls fans, lights, and small displays of a Linux machine. The daemon `featherd` reads
temperatures, decides on targets by curves, schedules, and overrides, and writes them to Corsair
iCUE LINK hubs, NVIDIA GPUs, and WireView Pro II displays. The client `feather` talks to it over a
Unix socket.

`src/` is the library. It is written in Verus, and its functions are proved against their
contracts. Three contracts are taken on trust: those of `String::push`, of
`String::from_utf8_lossy`, and of `humantime::parse_duration`.

What a device answers is not known beforehand, so three traits stand for devices: `Hardware` for a
machine as the engine sees it, `Drivers` for the handles below it, and `Gpus` for the GPU library
of a helper process. Each has a log of the calls made so far, and each method that reaches a device
promises one thing: that the log afterwards is the log before with this call, its arguments, and
its answer added at the end. Nothing is promised of the answer. A contract over a log therefore says which calls are
made, with what, in what order, and what becomes of each answer. That `SystemHardware` keeps the
promise of `Hardware`, and that a host that is not Linux keeps all three, is proved. The handles of
a Linux machine are in `app/`, which is not verified: there each method makes the one call that it
is named for, and its log is taken to say so.

The modules:

- `config`, `validation`, `guarantees`: the configuration, what it must meet, and what follows for
  one that was accepted.
- `curve`, `policy`, `engine`, `status`, `control`, `laws`, `run`: what each output gets, how the
  state of the daemon changes, and what holds throughout and over a whole run.
- `drivers`: the protocols of the devices, the router, the hardware of a machine, the work of the
  helper process that owns a GPU, and how that process is supervised.
- `ipc`, `daemon`, `lifecycle`, `client`, `doctor`, `fan_test`: requests and answers, and the
  decisions of the two programs, from the socket of the daemon to its end.
- `text`, `names`, `search`, `views`, `json`, `celsius`, `types`, `error`: what the others build on.

`app/` is ordinary Rust around the library: argument handling, sockets and files, device handles,
serialization, and the floating-point blend between two points of a curve.

`tests/` runs the library on concrete values.
