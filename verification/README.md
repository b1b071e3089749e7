# Kernel core

The verified core of a small real-time kernel, written in Verus.

- `src/` is the library. Every function in it carries a contract that Verus
  proves: the pools (`mem`), the scheduler (`sched`), dispatch and preemption
  decisions (`dispatch`, `preempt`), priority-inheriting locks (`lock`),
  channels (`ipc`), fault containment (`fault`), the actuation port
  (`actuation`), the audit journal (`spoor`), the initial context frame
  (`context`), the board's dispatch decisions (`board_dispatch`), the
  capacity budget (`capacities`), and the measurement and qualification
  arithmetic (`measure`, `measure_phases`, `qual_campaign`, `text`,
  `sorting`, `bench`).
- `tests/` exercises the library on concrete values.
- `app/` is the hardware edge: the register swap that moves between task
  stacks, and the dispatch round, tick hook and board entry points built on
  it. Every decision they take is the library's.

## Storage and encapsulation

- Fixed-capacity storage (the pools, the sample buffer, the journal ring)
  is held in a `Vec` sized once at construction, with its capacity as a
  stated invariant, instead of a `const fn`-built array: Verus does not take
  array fill expressions with a constant length, and `const fn` is not used
  here. Nothing grows past the capacity the type declares.
- A pool handle is an index and a generation, both public so that tests can
  build an out-of-range or stale handle by hand. Such a handle is refused
  like any other that does not match a live slot; but a handle built to
  match a live slot exactly does name that slot's value. Handles are
  therefore names, not capabilities.
- `Pool::slots`, `Scheduler::tasks` and the `Report` fields are public: the
  tests reach into them directly, and the `Report` contracts describe the
  borrowed sink through its field, which a public contract can only name
  when the field is public. Code that writes these fields directly steps
  outside the contracts; everything in `src/` and `app/` goes through the
  methods.
