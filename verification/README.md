# hwlocality

Decisions around the [hwloc](https://www.open-mpi.org/projects/hwloc/) library,
which detects the hardware of a machine and hands it out as a tree of objects,
verified with [Verus](https://github.com/verus-lang/verus).

- `src/topology/builder/` checks how a topology should be configured, decides
  which calls hwloc should make, and gives a meaning to its replies. Each request
  is a value with the call to make; handing hwloc's reply to its `finish()` method
  yields either a builder with an updated configuration or an error.
- `src/topology/` holds build flags, type filters, the configuration of a
  topology, and the shape of the tree of objects (`tree.rs`), along with a check
  that a list of objects has this shape (`check.rs`).
- `src/object/` answers questions about objects: ancestors, common ancestors,
  cousins, siblings, children, CPU and NUMA node sets, textual information.
- `src/windows.rs` enumerates Windows processor groups.
- `src/errors.rs` gives a meaning to the replies of hwloc entry points. Two `errno`
  codes come from the `libc` crate. Which numbers they may be is trusted, not proved.
- `app/` makes the calls to hwloc and reads the objects that it allocated.
- `tests/` runs the library on concrete values.
