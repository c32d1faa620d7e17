# opendut_cluster

The cluster logic of an openDuT-style test bench, verified with Verus.

- `src/mapping.rs`: which peers become members of a cluster and which of their
  network interfaces they bring (`determine_member_interface_mapping`).
- `src/manager.rs`: the cluster manager's state (VPN use, CAN server port range
  and counter), its error types, and the answers to read requests.
- `src/deploy.rs`, `src/store.rs`, `src/deletion.rs`: deploying a cluster,
  storing a deployment and deleting one, each as a step function from the
  current stage and what the outside world reported to the next stage and the
  next thing to do.
- `src/cli.rs`: the command that deletes a cluster configuration, as steps.
- `src/cluster_state.rs`, `src/peer_state.rs`, `src/short_name.rs`: cluster and
  peer states and their short names; `src/controls.rs`: button states of the
  peer configurator.
- `src/options.rs`: loading the port range from the configuration.
- `src/messages.rs`: the texts of error messages.
- `src/laws.rs`: properties that span several functions.

`app/` runs the step functions against the resource store, the VPN service and
the peers (`app/manager.rs`), runs the command-line command (`app/cleo.rs`), and
holds serializable and displayable forms of the library's types.
