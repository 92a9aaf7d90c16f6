# rustos

The desktop of a small x86_64 hobby kernel, as a library whose behaviour is
stated in Verus contracts and proved: a RAM file system, six desktop
applications (notepad, terminal, file manager, task manager, settings,
browser), their screens as lists of drawing commands, a software compositor,
and the state machines behind the kernel's devices (PS/2 mouse packets, PCI
scan, RTC and time zones, E1000 rings, ICMP echo for `ping`, keyboard
scancodes).

## Layout

- `src/` — the verified library.
  - `fs`, `names`: the file system (a map from paths to files and
    directories; stays a tree) and the order of names in listings.
  - `notepad`, `terminal`, `filemanager`, `taskmanager`, `settings`,
    `browser`, `app`: the applications and the events they take.
  - `*_screen`, `textflow`, `compositor`, `renderer`, `crash`: what each
    application draws, stated as drawing commands; painting them into the
    back buffer, pixel by pixel; copying frames out; the crash screen.
  - `desktop`, `window`: the windows, which application gets a key, one
    frame of every application, the whole screen.
  - `interrupts`, `keyboard`, `timer`, `pci`, `rtc`, `e1000`, `network`, `allocator`:
    the decisions of the device drivers, from the values read off the
    hardware to what is written back.
  - `text`: strings, decimal numbers and words.
- `tests/` — tests on concrete values.
- `app/` — the kernel around the library: boot, interrupt handlers, port and
  memory-mapped I/O, the network stack, the task executor.

Outside crates are called from `src/` through a few wrappers whose contracts
are trusted: `font8x8` for glyphs, `smoltcp` for ICMP messages, `pc-keyboard`
for scancodes, and `std`'s
`String::push`, `String::pop` and `str::from_utf8`.
