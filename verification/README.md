# hero-init

hero-init configures a Linux machine at first boot from `hero-init.yaml` on a
device labelled `SEED`: host name and instance identifier, network interfaces
(Netplan or ifupdown), user accounts with SSH keys and sudo, and user commands.
It records the modules it has applied so that a later boot repeats nothing.

Layout:

- `src/` — the library, verified with Verus. It decides what to do and
  describes every effect on the system as data (`ops::SystemOp`), with
  contracts that state the exact files, contents, commands and permissions.
  Every procedure is a driver that hands out one step at a time and ends
  the run at the first reported failure (`ops::next_step`).
- `app/` — the program: reading files and devices, parsing YAML, running
  programs, and carrying out the operations the library plans.
- `tests/` — tests of the library.
