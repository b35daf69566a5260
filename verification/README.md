# roller

A lighting controller: an Akai APC mini (or the web interface) drives effects
on DMX fixtures, which are sent to an OLA daemon.

`src/` is the verified library (Verus). It holds the decisions the controller
makes, each with a contract proved by Verus:

- `midi` — decoding MIDI packets into events.
- `akai` — the APC mini's note layout, pad colours and flashing pads.
- `control`, `button`, `control_mapping` — the control surface: buttons, groups,
  faders, meta buttons, and how every pad is lit after a series of inputs.
- `button_states` — the history of button presses per fixture group, and which
  effects and colours it leaves active.
- `engine` — which scene and fixture group are selected.
- `clock` — where the tempo comes from, and what a tap on the tempo button
  does (series of taps, pauses, when a series sets the tempo).
- `fixture`, `profile`, `position` — fixtures, assembling a profile from its
  channels, mirroring moving heads.
- `offset` — by how many clock offsets each fixture is shifted.
- `dmx`, `ola` — placing fixture channels into universe frames, and the header
  of messages to OLA.

`app/` is the program around it: reading the project and profile files, the
floating point rendering of effects and colours, MIDI devices, the web
server and the OLA connection.

`tests/` runs the library on concrete values.
