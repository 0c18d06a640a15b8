# engenho-kubelet

The agent of a cluster's node: it sees to it that the containers of the pods that are bound to the
node run, starts them again where their policy says so, and reports what became of them.

- `src/` holds the decisions, written in Verus. Each function states what it returns or changes, and
  the proof is part of the source. Nothing in it reads a file, a socket or a clock: what comes from
  outside is handed in as a value, and what is to be done outside is handed back as one.
- `app/` is ordinary Rust around it: the runtimes (podman, processes of the host, the container
  runtime interface), storage drivers, and the loop that asks the library what is next, does it, and
  hands back what came of it. The store, the volume plugins and the probe clients of the daemon stand
  behind traits.
- `tests/` runs the library.

## Modules

| Module | What it decides |
| --- | --- |
| `kubelet` | what is remembered of the pods, and what a pass over the node does |
| `prepare`, `startup` | what must be there before a container of a pod is started, and starting it |
| `init_pass` | running the init containers, one after the other |
| `running` | polling, probing and restarting the containers of a pod |
| `lifecycle`, `backoff`, `probes` | phases, restart policies, waits between restarts, readiness |
| `pod_spec`, `pod_env`, `env_ref`, `quantity`, `services` | what a manifest means |
| `pod_status`, `conditions`, `node_lease`, `report` | what is published and counted |
| `pod_volumes`, `csi_materializer` | volumes, and the order in which drivers are asked for them |
| `backend`, `native_backend`, `cri`, `cri_backend`, `image_source`, `config_bridge` | the runtimes |
| `exec_channel`, `exec_session` | running a command in a container for a client |
| `json`, `text`, `scan`, `number`, `paths`, `time`, `table`, `keyed`, `resource`, `error` | the values the rest works on |

A task that takes several calls to the outside is a pass: `call` tells what is asked for, a method
takes in the answer, and `finish` tells what came of it all. What a pass does is stated over its
view, so that a law about it holds for every answer that the outside can give.

What is believed rather than proved is marked `external_body` or `assume_specification`, with the
outside function named above it: two functions of strings, `{:?}` of a string, decoding of UTF-8
and of base64, and how serde_json builds and writes a value.
