# surfman_chains

Thread-safe swap chains for the `surfman` surface manager, with verified rules.

A swap chain lets surfaces travel between a producer context, which draws, and consumer contexts,
which display. The library in `src/` decides which surface goes where; Verus proves what it
promises. It never talks to a graphics device: each operation is a dialogue of requests and
answers.

| Module | Content |
| --- | --- |
| `surface` | surfaces, sizes, errors |
| `device` | the requests to the device, and its answers |
| `gl` | the GL commands that clear a surface and put the GL state back |
| `provider` | the backends that manage the surfaces of a swap chain |
| `chain` | a swap chain and its operations |
| `chains` | a collection of swap chains, by id and by producer context |
| `tables` | what is trusted of the FNV hash maps and sets |
| `dialogue` | whole operations, from the first request to the result |
| `outcomes` | what whole operations come to |
| `accounts` | where the surfaces go |
| `ownership` | which swap chains belong to which producer context |

`app/` carries the requests out with `surfman` and `sparkle`, and puts the locks around what
threads share.
