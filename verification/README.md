# ios-webkit-debug-proxy

A proxy between the WebInspector of iOS devices and tools that speak the WebKit Remote Debugging
Protocol over WebSockets.

`src/` is the library. Its functions decide and compute; none of them waits or does I/O. Each has a
contract that Verus proves.

- `proxy`: what is known of every device, and what each event does to it. Handlers change the table
  of devices and return a list of actions.
- `rpc`, `property_list`: the messages that WebInspector and the proxy exchange.
- `plist_dates`: the dates that property lists cannot be read with.
- `webinspector`: packets, and messages that are split over several of them.
- `device_listener`: the usbmuxd protocol, as far as it tells of devices that come and go.
- `idevice_ext`: the dialogue with a device up to its WebInspector, and what TLS to it needs.
- `http_server`: what the HTTP endpoints answer, and what a WebSocket connection does.
- `port_config`, `options`: the rules for ports, and what the command line asks for.
- `error`, `text`, `seqs`: errors, text and sequences.

What always holds of the library as a whole is stated in the proof functions whose names begin with
`law_`.

What other crates compute (property lists, JSON, URLs, PEM, UUIDs, bytes of numbers) is called
through small functions marked `external_body`. The comment above each says what is taken for
granted.

`app/` is the program: arguments, sockets, HTTP and WebSocket serving, TLS, and the calls into
libimobiledevice. It performs the actions that the library returns. It needs `libimobiledevice` and
`libusbmuxd`.
