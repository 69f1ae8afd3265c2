# kubesitter

A Kubernetes operator that puts the workloads of namespaces to sleep
outside working hours and wakes them again, driven by `SchedulePolicy`
resources and by the Cloudsitter policies of Uniskai.

- `src/` is the verified library (Verus): the policy model, weekly
  schedules and the grids they come from, time zones and fixed offsets,
  namespace selection, the patches that scale deployments, stateful sets,
  replica sets and replication controllers to zero and back, suspend cron
  jobs and park daemon sets, the controller's decisions, and the
  synchronisation with Uniskai. `src/kubesitter/laws.rs` states the
  properties that span several functions.
  `src/schedule_controller/`, `src/controller.rs` and `src/uniskai.rs`
  hold the earlier generations of the operator.
- `app/` runs the library against the API server and the Uniskai API: the
  controller loop, the web server, the CRD generator and the command line
  tools.
- `tests/` exercises the library on concrete values.
