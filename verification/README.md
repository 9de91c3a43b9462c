# Object Syncer

A [Kubernetes controller](https://kubernetes.io/docs/concepts/architecture/controller/)
that synchronizes (copies) objects between namespaces, such as a `ConfigMap` or an
image-pull `Secret` that has to exist in every namespace. The logic is written in
[Verus](https://github.com/verus-lang/verus) and proved against its contracts.

An `ObjectSync` names a source object and the destinations of its copies:

```yaml
kind: ObjectSync
apiVersion: sync.rustrial.org/v1alpha1
metadata:
  name: my-test-config-map-distributor
  namespace: default
spec:
  source:
    group: ""
    kind: ConfigMap
    name: my-test-config-map
    namespace: default # defaults to the namespace of the ObjectSync object
  destinations:
  - namespace: "*" # empty string or wildcard "*" means "all namespaces"
    name: my-test-config-map # defaults to the name of the source object
```

- While the source object exists, it is copied to the destinations. A copy that is
  missing is created, and one that differs is written again.
- When the source object or the `ObjectSync` is deleted, all copies are deleted. It
  is held by a finalizer until no copy is left.
- There is one controller for each kind of source objects. It runs as long as some
  `ObjectSync` refers to an object of that kind.

## Layout

- `src/` is the library: data types, decisions and the state machines that say which
  request comes next. All of it is verified. The functions named `law_..` state what
  holds of the library as a whole. `src/outside.rs` holds the calls into other
  crates, whose contracts are believed.
- `tests/` runs the library on given values.
- `app/` is the program: it makes the requests and hands their answers to the library.

## Configuration

| Variable              | Meaning                                             | Default   |
| --------------------- | --------------------------------------------------- | --------- |
| `WATCH_NAMESPACES`    | Namespaces to watch for `ObjectSync` objects        | all       |
| `SOURCE_NAMESPACES`   | Namespaces to read source objects from              | all       |
| `TARGET_NAMESPACES`   | Namespaces whose changes are watched for copies     | all       |
| `METRICS_LISTEN_ADDR` | Address that the metrics are served at              | `0.0.0.0` |
| `METRICS_LISTEN_PORT` | Port that the metrics are served at                 | `9000`    |

Namespaces are separated by commas. The wildcard `*` among them stands for all.
