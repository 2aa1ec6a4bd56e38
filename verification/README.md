# pam_tpm_gnome_keyring

Unlocks the GNOME keyring at login with a passphrase that the machine's TPM
protects, for logins where no password is typed that could unlock it.

A PAM module decrypts the passphrase with `clevis` and hands it through a pipe
to a helper, `gkd-unlock`, that outlives the login. The helper becomes the user,
waits for the keyring daemon's control socket, and asks the daemon to unlock the
login keyring.

- `src/` is the library, verified with Verus. It decides what the command's
  output is worth, which user ID the password file gives, what goes over the
  socket and what a reply means, when to wait and when to give up, when the
  passphrase is overwritten, what is logged and how grave it is, and what is
  returned. Each phase is a machine that says what to do next and is told what
  came of it.
- `app/` performs the actions: it calls libpam and libc, runs processes, reads
  files and the socket, lays out the credentials that the kernel passes on, and
  writes the log. `main.rs` is the root of the helper, `lib.rs` that of the PAM
  module, which is built as a shared object and is the one of the two that is
  linked against libpam.
- `tests/` runs the library on concrete values.

What is proved of whole runs stands in the library as `law_` functions. Among
them: the helper becomes the user before it touches anything of the user's; the
request, with the passphrase in it, goes out only after the credentials; an
authentication token that another module has set is left alone; the module's
copies of the passphrase are zero once they have served; of a passphrase that is
accepted only its length is logged; for a user who has enrolled none nothing is
logged but what helps to find faults; and a passphrase that was enrolled is the
one that the daemon finds in the request.

The records in the log are identified by `pam_tpm_gnome_keyring` and
`gkd-unlock`: `journalctl -t` finds them by these names.

One function of the standard library is trusted: `std::str::from_utf8`, wrapped
in `src/text.rs`.
