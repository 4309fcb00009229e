# shos kernel library

The logic of a small x86 hobby kernel, verified with Verus. The crate is a
library; `app/` holds the parts that touch the machine (port I/O, interrupt
handlers, the boot sequence and the main loop) and calls into it.

- `queue`: a bounded ring-buffer queue (keyboard and mouse input).
- `linked_list`: a doubly linked list kept in an arena (timers, windows).
- `allocator`: the kernel heap: seven slabs and a first-fit hole list.
- `arch`: the interrupt controllers, the timer, the descriptor tables, the
  mouse packet decoder, the palette and drawing into video memory. Writes to
  I/O ports are returned as values for the caller to make.
- `driver::pci`: PCI configuration addresses, base address registers, the
  command and status report, and the network card's descriptor rings.
- `window`: the window stack, the map of which window shows at each pixel,
  and the pixel copies that redraw the screen.
- `util::lazy_static`: values built on first use.

Each module states its contracts over mathematical models (`Seq`, sets of
addresses, pixel maps) and proves the laws that relate its operations, such
as allocation followed by deallocation giving the memory back.
