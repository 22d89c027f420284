# irodori_bigquery

The logic of a BigQuery connector, verified with Verus.

`src/` is the library. It does no I/O: what has to be sent, read or waited for is
handed out as a step, and what came back is fed to the value that the step left
behind. Each step function states, over a model of the values, exactly what
follows on what.

- `json`, `text`, `number`, `order`, `base64`, `form`: values and how they are written
- `http`: requests, and what came of them
- `signing`, `oauth`: signed assertions, refresh tokens, the metadata server, impersonation
- `adc`, `external`, `token`: Application Default Credentials and workload identity federation
- `config`, `redaction`: the configuration of a connection, and keeping its token out of messages
- `query`, `run`: pages of rows, and a query from its submission to its last page
- `metadata`: the datasets, tables and columns of a project
- `connections`, `driver`: the open connections, and the calls that are answered

`app/` runs the steps: HTTP, files, the environment, the clock, and the host's
calling convention, which it takes as a trait.

`tests/` runs the library on concrete values.
