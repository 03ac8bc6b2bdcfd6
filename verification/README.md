# ash

Snapshots of a root file system: they are made, changed inside a chroot, arranged in trees,
deployed, exported, imported and deleted.

`src/` is the library. No operation touches the system: it makes requests of its surroundings
and goes on with the replies. The contract of an operation names its script, which says for
all replies what is asked for, in which order, and how the operation ends. `src/script.rs` and
`src/laws.rs` prove what holds of scripts and of runs, whatever the replies.

- `request.rs`, `script.rs`, `host.rs`: requests and replies, scripts, and how they are run
- `text.rs`, `paths.rs`: texts and paths
- `profile.rs`, `config.rs`: package profiles and the options of a snapshot
- `mounts.rs`, `dirs.rs`, `chroots.rs`: the temporary copy in which a snapshot is changed
- `snapshots.rs`, `deployment.rs`, `rebuild.rs`, `exchange.rs`: what is done with snapshots
- `packages.rs`, `profiles.rs`, `triage.rs`, `trees.rs`, `editing.rs`, `system.rs`: the commands
- `laws.rs`: what holds of several operations at once
- `model.rs`: what a script comes to in surroundings that keep a state
- `cloning.rs`, `recovery.rs`, `settling.rs`: what cloning a tree, deploying for recovery and
  checking a profile come to

`app/` runs the operations: it carries out each request and hands the reply back. The package
manager, the file system, the boot loader and the tree file stand behind its `Platform` trait.

`tests/` runs the operations against given replies.
