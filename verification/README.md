# rebar

Rebar is a Windows top taskbar: it reserves a strip at the top of the monitor, themes
itself from the wallpaper and opens flyout panels for system usage, network, audio,
media and device actions.

## Layout

- `src/` is the library, verified with Verus. It holds the settings file format
  (`config`), the byte and text formatting of the panels (`format`, `labels`), the
  network adapter model and its merging and ordering (`network`, `sort`), UTF-16 and
  SSID decoding (`encoding`), the command line and startup command (`launch`), the
  chart history (`history`), the flyout and wallpaper decisions (`flyout`), the
  appbar geometry (`appbar`), the default audio device (`audio`), palettes
  (`palette`) and playback states (`media`).
- `tests/` exercises the library on concrete values.
- `app/` is the program around it: the `iced` user interface, the Win32 and WinRT
  calls, file and registry access, process spawning and the floating-point colour and
  layout work. It drives the library's state machines and hands it plain values.
