# rhubarb

The computing core of Rhubarb, an operating system in which executables act
as libraries, written in Verus: the functions under `src/` are proved against their
contracts, which every public function carries.

## Layout

- `src/` — the verified library:
  - `x86` — the x86-64 instruction decoder;
  - `elf`, `pod`, `bytes` — reading ELF objects from their bytes;
  - `loader`, `load_plan` — what the runtime loader decides: the mapping
    sizes, where each section goes, the relocations to apply and how they are
    written, the crate names a symbol refers to;
  - `paging`, `boot_info`, `pci`, `pci_class`, `pci_capability`, `rtc`,
    `serial`, `framebuffer`, `time` — the computations behind the boot
    loader, the drivers and the kernel's devices;
  - `process`, `driver_input`, `type_map`, `tree`, `path`, `stable_vec`,
    `stable_string`, `layout`, `math`, `bits`, `cursor`, `cursor_icon`, `keys`
    — shared data structures and small decisions.
- `tests/` — tests of the library on concrete values.
- `app/` — what runs on the machine itself around the library: spin locks,
  port I/O, display memory, the global clock, system calls, the choice of
  the kernel heap and the floating-point geometry of the user interface.

The tree of `tree` keeps each node's leaves in the node itself, next to a
map from every id to its branch; `Tree::wf` states that the two agree, and
the laws at the end of the module show that adding and removing nodes
through the tree's own handles keeps them in agreement.

## Outside crates

- `x86_64` gives the canonical start address of a 1 GiB page (boot loader)
  and the port I/O of `app/`.
- `rustc-demangle` gives the names under which loaded sections are
  registered.
