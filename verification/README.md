# sda_agent

The library of a desktop agent that watches over a host and manages it:
processes, network connections, DNS queries, process memory, files, packages,
administrator accounts, device posture, power, host isolation, application
control and device management on Linux, macOS and Windows.

The library in `src/` is verified with Verus. It decides and computes; it opens
no file, runs no program and waits for nothing. Commands come out of it as plain
values, and what a command has printed goes into it as octets or text. Runs of
several steps (a grant of rights, an isolation, the life of a module) are state
machines that say what is to be done next and take what came of it. A memory
scan asks the host through traits that the caller implements, and every question
goes on record, so that its contract tells what was asked.

- `src/text.rs`, `src/json.rs`, `src/net.rs`, `src/clock.rs`, `src/command.rs`:
  text, JSON documents, addresses, points in time and command lines, with the
  models that the other modules state their contracts over.
- `src/*_monitor.rs`, `src/memory_scanner.rs`, `src/scan_host.rs`,
  `src/kernel/`: what a host shows, and what follows from it.
- `src/*_module.rs`, `src/lifecycle.rs`, `src/dedup.rs`, `src/udp_sampler.rs`,
  `src/stream.rs`: what the modules of the agent make of it.
- `src/admin_manager.rs`, `src/admin_run.rs`, `src/host_isolation.rs`,
  `src/mdm.rs`, `src/package_manager.rs`, `src/app_control.rs`: changes to a
  host.

Functions named `law_...` are theorems about the library as a whole.

`app/` holds the agent around the library: programs, files, events and timers.
`tests/` runs the library on concrete values.
