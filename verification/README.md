# dxgcap

Captures the screen with DXGI on Windows, verified with Verus.

The library in `src/` makes no call into the system. It decides which call is due, is handed what
the call gave back, and computes the picture. Every decision has a contract, and the modules
`desktop`, `trace`, `picture` and `runs` prove what holds of a whole piece of work: that the output
which is acquired is the capture source of the desktop, with the device of its adapter; that a
picture is that of a frame of the output, read from the surface which the frame was copied into;
that every reference to a COM object is accounted for; and that the work comes to an end.

| module     | what it holds                                                        |
|------------|----------------------------------------------------------------------|
| `hresult`  | result codes                                                         |
| `com`      | objects, calls and replies                                           |
| `pixel`    | pixels, and how a picture lies in a surface                          |
| `source`   | which output is the capture source                                   |
| `time`     | timeouts                                                             |
| `text`     | UTF-16 text                                                          |
| `acquire`  | finding and duplicating the capture source                           |
| `frame`    | fetching a frame                                                     |
| `capture`  | taking a picture, and what to do when that fails                     |
| `manager`  | `DXGIManager`                                                        |
| `desktop`  | what an acquisition comes to on a given desktop                      |
| `trace`    | where the output that is acquired comes from                         |
| `picture`  | where a picture comes from                                           |
| `refs`     | lists of references                                                  |
| `runs`     | what holds from start to end                                         |

`app/` makes the calls.
