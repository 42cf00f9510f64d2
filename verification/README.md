# bambu-overlay

A live print overlay for Bambu printers: it listens to printers over MQTT, through Bambu Cloud or on
the local network, and serves pages, events and camera streams for OBS.

`src/` is the library, verified with Verus: reading the configuration, finding out which devices are
served and how they are opened, what is made of reports and of the task history, the requests to
Bambu Cloud and what their answers come to, and the steps of a camera connection. `app/` is the
program around it: the command line, files, HTTP, MQTT and TLS connections, JSON, and the
floating-point work behind the figures that are shown. `tests/` run the library.

- `text`, `time`, `table`, `retry`: texts as sequences of characters, instants, sets and tables of
  names, and waits between attempts.
- `certificate`: the device that a printer's certificate names.
- `local`, `config`: endpoints and devices as they are written.
- `bambu`: the data of Bambu Cloud, its errors and its requests.
- `cloud`, `devices`: the devices that are served and their cameras.
- `mqtt`: who is listened to, and what is made of what they say.
- `video`: camera packets and frames; `video::choice`: which endpoint is tried for a camera;
  `video::stream`: one camera connection, step by step.
- `overlay`: summaries, spools and texts that the overlay shows.
- `auth`, `cli`, `web`: tokens, logins, and what the server answers.

Quantities are carried as the bits of the doubles that were reported; the library does not compute
with them. What `chrono`, `minijinja`, `serde_json`, `uuid`, `bytes` and `rustls` do is stated in the
contracts of the few functions that call them.
