# mde

The logic of the MDE-Retro desktop shell, verified with Verus.

- `src/` is the library. Each module holds one part of the shell as
  functions from plain values to plain values, with contracts: the parsers
  of the files and command outputs the shell reads (`.desktop` entries,
  `nmcli`, `dnf`, `wlr-randr`, `/proc/mounts`, udisks2 properties), the
  rewriting of `rc.xml`, `settings.ini` and `environment` files, and the
  state machines of the windows (Files, Display Properties, Control Panel,
  Add/Remove Programs, Setup, the Open/Save dialog, the Action Center, the
  network flyout, the Start menu and the first-run wizard). A window's
  state machine takes the state and one message and gives the new state and
  what the shell must do next; the shell does it and hands back the result
  as the next message. Laws that span several calls are public proof
  functions named `law_*`.
- `app/` is the `mde` program: argument handling, files, D-Bus, processes
  and text output around the library. It has no graphical toolkit, so it
  prints what the windows would show rather than running them: of the
  window state machines it drives only the Files listing (refresh and
  load), while the others are exercised by the tests. The daemons and
  one-shot commands (notifications, AutoPlay, proxy, Bluetooth, first-run
  setup, Setup/Install) call the library's decisions directly.
- `tests/` runs the library on concrete values.
