# morpheus_updater

The installer and updater of Morpheus Launcher, as a verified library with a thin program
around it.

- `src/` is the library, checked by Verus:
  - `session`: the decisions of one run (local installation, version check, update or first
    installation, launch, offline fallback) as a state machine from event to next effect, with
    its laws;
  - `download`: what happens to each downloaded file (download, unpack, delete the archive);
  - `archive`: reading the launcher's ZIP package and the extraction plan;
  - `linux`: distribution detection, dependency packages and install commands;
  - `jsoncpp`: finding the installed jsoncpp library and the compatibility links it needs;
  - `config`, `text`, `shortcut`, `icon`: names, addresses, text handling, desktop entries and
    the window icon.
- `app/` is the program: the window, the network and file work, and the loop that feeds each
  outcome back to the session.
- `tests/` runs the library on concrete values.

The window icon `morpheus.ico` is read at run time from beside the executable or from the
installation directory.
