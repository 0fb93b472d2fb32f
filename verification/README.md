# crate-runtime

A minimal OCI-compatible container runtime whose logic is verified with
[Verus](https://github.com/verus-lang/verus).

## Features

- **Namespace isolation**: PID, mount, UTS, IPC and network namespaces
- **Cgroups v2**: memory, CPU and PID limits via the unified hierarchy
- **OverlayFS**: layered filesystem with read-only and read-write modes
- **Image pulling**: the Docker Registry HTTP API V2 with SHA256 verification
- **Lifecycle**: a state machine (create, start, stop, delete) with status records on disk
- **Bridge networking**: veth pairs, address allocation, NAT via iptables
- **Security hardening**: capability dropping, a seccomp filter, path validation
- **Configuration**: a TOML file with defaults for all settings

## Layout

- `src/` is the library. It decides everything and changes nothing on the host; all that it
  reads there by itself are the process id, the user id, the home directory, the clock and
  random numbers.
- `app/` is the command line `crate`. It performs what the library asks for.
- `tests/` holds the tests of the library.

The library has two ways to ask for something:

- A function that only changes the host returns a `host::Plan`: operations in order, each
  with the rule that says what its failure means. A driver performs them one by one and
  reports each outcome to a `host::PlanRun`.
- A function whose steps depend on what the host answers is a dialogue. It takes the
  answers so far and returns a `dialogue::Next`: the next question, the result, or an error.

  ```rust
  let mut replies = Vec::new();
  let status = loop {
      match manager.state("c1", &replies) {
          Next::Ask(call) => replies.push(answer(call)),
          Next::Done(status) => break status,
          end => return Err(end),
      }
  };
  ```

Each function's contract says which operations it plans, or which turn follows from which
answers. What holds of several functions together is stated by public proof functions, such
as those in `runtime::laws` for the lifecycle.

## Usage

```sh
# Run a command in a new container
sudo crate run /bin/sh

# Run with a root filesystem and a hostname
sudo crate run -r /path/to/rootfs -H myhost /bin/sh

# Pull an image from Docker Hub
sudo crate pull alpine:latest

# Lifecycle commands
sudo crate create mycontainer --bundle /path/to/bundle
sudo crate start mycontainer
sudo crate state mycontainer
sudo crate stop mycontainer
sudo crate delete mycontainer
sudo crate list
```
