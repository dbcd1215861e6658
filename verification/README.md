# spur

Decisions of a job scheduler, proved with [Verus](https://github.com/verus-lang/verus):
how jobs run as pods of a Kubernetes cluster, how their ends reach the controller
exactly once, how accounting books them, and how a node confines them.

`src/` is the library. It does no input or output: every function takes what was
read and returns what to write, send or wait for. `app/` does the reading and
writing with `kube`, `sqlx`, `libloading` and the file system.

| Area | Modules |
| --- | --- |
| Identity of executions, names | `execution_identity`, `naming` |
| Launching pods and services | `launch`, `desired`, `quantity`, `mounts`, `gpu`, `envvars` |
| Provenance of created objects | `provenance`, `control` |
| Ending executions | `terminate`, `cleanup` |
| Jobs of the cluster | `submission`, `reconcile`, `completion`, `job_state` |
| Workers and sessions | `heartbeat`, `sessions`, `pmix_dispatch` |
| Accounting | `ledger`, `queries`, `accounts`, `notifier` |
| Nodes | `cgroup`, `spank` |
| Data | `k8s`, `crd`, `wire`, `status`, `clock`, `uuids` |
| Text and maps | `text`, `words`, `strmap`, `plain`, `plainmap` |

What a function returns is stated over the views of its arguments. What holds of
several functions together is stated by the proof functions whose names begin with
`law_`.

Loops that wait for the cluster or the controller are steps: a function says what
to do next, the caller does it and hands the answer to the next function. Updates
that may lose a race carry the version they were made for, and are tried again a
bounded number of times.

Few items are trusted. Each wraps one function of `std`, `chrono`, `uuid` or
`kube`, and its comment says what is claimed of that function.
