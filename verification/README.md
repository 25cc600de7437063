# hpd

The Handheld Power Daemon: TDP, cooling, GPU clock, platform profile and charge
limit of handheld PCs, behind one D-Bus interface, with a command-line client.

- `src/` is the verified library. It holds the daemon's decisions as functions on
  plain values: the reducer (`reducer`), the executor's steps and its run
  (`executor`, `run`), what the D-Bus services admit (`service`, `ppd_shim`), the
  hardware backends on top of the kernel's attribute files (`asus`, `lenovo`,
  `valve`), what is kept over restarts (`config`, `persistence`, `boot`), and what
  the client prints (`cli`, `commands`, `doctor`). `laws` and `consistency` state
  what holds of them together.
- `app/` is the program around it: the bus, the files, the signals.
- `tests/` runs the library on given values.

Numbers with a fraction are binary32 numbers held by their bits (`single`). The
hardware is reached through the traits in `sysfs` and `backend`; contracts say
which requests a function makes and what follows from each answer. Whatever
writes goes through a record of its requests (`journal` for the attribute files,
`calls` for a backend's capabilities), so that the contracts also fix their order
and say that there are no others.
