# DropTail

A GTK client that sends files and folders to the devices of a tailnet with
Taildrop, through the tailscaled LocalAPI.

The logic of the client is a library verified with Verus:

- `src/domain`: the selection (files sent one by one, or packed into an
  archive), the device list, the preferences and the state of a running
  transfer, with the laws their operations keep.
- `src/application.rs`: the application state the window works on.
- `src/file_selection.rs`, `src/archive.rs`, `src/transfer.rs`: what becomes
  of chosen paths, which entries an archive holds and under which paths, how
  a request body reports progress, and how a transfer ends.
- `src/tailscale.rs`: which peers of a LocalAPI status can receive files, and
  the URLs and replies of file puts.
- `src/presentation.rs`, `src/ui`: the texts the window shows and the
  decisions behind its buttons, lists and dialogs.
- `src/models.rs`, `src/mock_api`: fixed sample data for preview screens.

`app/` holds the program around the library: the relm4 window and its
panels, GSettings, the HTTP client, the archive writer thread, and the file
system.
