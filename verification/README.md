# rmvci

A driver for the Toyota Mini-VCI J2534 cable (an FT232R serial bridge in front
of an LPC2119 running "J2534 MINI V1.03"), verified with Verus.

`src/` is the library. Every function in it carries a contract, and the laws
that hold across functions stand beside them as public proof functions.

| module | what it holds |
|---|---|
| `bytes`, `text`, `time`, `types`, `error`, `message` | byte order, text, time, protocol and status numbers, errors and their words |
| `codec` | the wire protocol: frames, DES-ECB, the deframer, inner commands and replies |
| `transport` | the port as the library asks for it, a scripted mock, the FT232R's own rules |
| `session` | the handshake, the port-owning actor, `Device`, raw and typed channels |
| `isotp` | ISO 15765-2 transmit and receive machines, and the clients on both paths |
| `kline` | ISO 14230 framing and bring-up |
| `diag` | KWP2000 and UDS clients with Toyota's extensions |
| `j2534` | the 14 PassThru calls over a table of device slots |
| `android`, `hvac` | the session an Android app holds, the command line of the A/C reader |

The outside world enters through two traits, `Clock` and `Transport`. Their
contracts speak of a `World`: everything it was asked so far, and how it answers
what it is asked next. Each operation on a session is then a function of the
session and that world, and the contracts say which.

`app/` is what goes round the library: the serial, USB and Java ports, the log of
what goes over them, the
thread that owns one, the C and Java entry points, and the program that reads
the air-mix servo of a Prius A/C amplifier. `tests/` runs the library against
the mock.
