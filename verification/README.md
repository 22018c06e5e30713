# buttplug-lite

A small proxy between programs that want haptic feedback and the devices that give
it. Clients open a websocket and send short text commands; each command names
motors by tags that the user has chosen, and the proxy drives the devices.

```
i:0.6;o:0.0
```

sets the motor tagged `i` to 0.6 and the motor tagged `o` to 0.

## Layout

* `src/` is the library, verified with Verus: the command language
  (`command`, `command_laws`), what follows from the messages of a client
  (`haptic`, `haptic_laws`), the connected devices and their motors (`device`, `motor`, `status`),
  the answers of the web server (`replies`), the life of the connection to the device
  server and of the configuration (`application`, `configuration`), the life of the
  web server (`web_server`), and what these rest on (`text`, `number`, `integer`,
  `settings`, `named_map`, `sorting`, `log`).
* `app/` is the program around it: the runtime, the web server, the device server,
  the configuration file.
* `tests/` runs the library on concrete values.

## Numbers

Strengths are doubles. The library keeps them as bits and proves what it does with
them (comparing, clamping, flipping the sign) on the bits; the program turns text into
doubles and doubles into text.

## What is trusted

Reading whole numbers is left to the standard library's `str::parse`
(`integer::parse_u32`, `integer::parse_u8`).
