# hostsync

Keeps files on groups of SSH hosts up to date. Each configured file is
fingerprinted (SHA3-256) here and on every host of its group; where the
fingerprints differ, the file is uploaded under a temporary name and then takes
the place of the destination. Files go over SFTP, or over plain SSH commands
where SFTP is not wanted or cannot be had.

- `src/` is the library, verified with Verus: what is decided, computed, quoted
  and said. Each flow is a small machine that names the next action, is told how
  it went, and names what a failure is put down to.
- `app/` is the program: it reads the configuration, opens the sessions and
  performs the actions.
- `tests/` runs the library on concrete values.

The laws are public proof functions next to what they speak of. Among them: a
quoted path is one word to a shell, whatever it holds (`shell`); a destination is
touched only after a complete upload (`sftp_upload`, `ssh_upload`); an upload ends
with the content in place, and with nothing else changed but the directories that
were missing (`remote_tree`, `remote_shell`); an uploaded file is found up to date (`sync`, `remote_shell`);
files are processed in order, over one transport (`job`); a round starts every
host before it waits for any (`poll`); the first fault of a configuration is the
one that is reported (`config`).
