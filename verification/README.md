# audio_bridge

AudioTX PRO streams stereo audio over UDP, optionally through a userspace
WireGuard tunnel, with a jitter buffer on the receiving side and a simple
license check bound to the machine. The Opus library is not linked in this
build: the codec calls are stand-ins that encode and decode nothing, so the
frames sent carry no audio.

- `src/` is the verified library: datagram framing (`frame`), the jitter
  buffer (`jitter`), bounded histories (`history`), licensing and hardware
  ids (`license`), WireGuard key handling (`vpnkey`), the IPv4/UDP envelopes
  sent through the tunnel (`netframe`), settings and command-line options
  (`config`), what the interfaces display (`status`), the codec interface
  (`codec`), text helpers (`text`), the audio engine's decisions
  (`engine`), the WireGuard tunnel as the engine drives it (`tunnel`) and
  what holds of every sequence of calls into the engine (`session`).
- `app/` runs the program: the settings file, the engine's thread (sockets,
  audio devices), the desktop window, the console display and
  the license generator.
- `tests/` exercises the library on concrete values.
