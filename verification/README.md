# openshell_fractal

Fractal Code runtime integration for OpenShell, as a verified library.

Fractal cells are small units of JavaScript logic that declare what they are, what they take and give,
and which channels they use. Before a cell may run inside an OpenShell sandbox, it is checked against
the constitution, and its channel declarations are compiled into sandbox policies.

| Module | What it holds |
| --- | --- |
| `constitution` | the ten constitutional checks: pattern scan, structural signature, completeness, taint |
| `classification` | the classification tags of contracts, and taint inheritance |
| `channel_mapper` | typed channel declarations to OpenShell policy blocks |
| `cell_runner` | the gates that a cell passes on its way to execution |
| `sandbox` | the sandboxes that cells run in, which are not wired yet |
| `scaffold` | pipelines of cells: order, threading of outputs, pause checkpoints |
| `cell_file` | `.fc` cell files |
| `report` | what the commands print |
| `schema`, `policy`, `json` | the data |
| `json_text`, `outside` | calls into `serde_json`, `serde_yaml`, `url`, `regex-lite`, `sha2`, `hex` and `std` |
| `text` | string operations |
| `laws` | what holds of the library as a whole, as proofs |

Every contract is stated over mathematical views of the data. What a library outside of this one
returns is either stated by its wrapper or given a name, so that the contracts above it are exact in
terms of that name.

`app/` holds the `openshell fractal` commands: argument parsing, reading files, printing, and the
types with the derives that serialization takes.

```bash
openshell fractal run cell ./my_cell.fc --input '{"x": 1}'
openshell fractal run scaffold ./my_pipeline
openshell fractal validate ./my_cell.fc
openshell fractal channels ./my_cell.fc
openshell fractal policy ./my_cell.fc --output policy.yaml
```
