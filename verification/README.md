# ghass

Static security analysis of GitHub Actions workflow files, written in Verus:
every analyzer, the workflow parser, the line index, the custom-rule engine and
the report assembly carry contracts that Verus proves.

## Layout

- `src/text.rs`: text helpers (containment, trimming, line splitting) over `Seq<char>`.
- `src/yaml.rs`: a plain model of a YAML document and the call into `serde_yaml` that yields it.
- `src/line_index.rs`: finds the source lines of jobs and steps by indentation.
- `src/parser.rs`: turns a YAML document into a `WorkflowFile`.
- `src/models.rs`: workflows, jobs, steps, permissions, findings and their views.
- `src/analyzers/`: script injection, permissions (Pwn Request, write grants),
  action pinning, secrets, self-hosted runners, and custom rules; `run_all` runs them in order.
- `src/rules.rs`: custom rule conditions, how they are read from YAML, evaluated and validated.
- `src/scan.rs`: builds a scan report: findings ordered by severity, counted per severity,
  filtered by a minimum severity.
- `app/main.rs`: the `ghass scan` command (arguments, files, clock, table output).
- `tests/`: tests of the library through its public interface.

Each module states what its functions compute as spec functions; the laws that
relate several functions (ordering and permutation of sorted findings, the
severity filter, rule granularity, rule-file validation, document order of the
line index, findings naming their workflow) are public proof functions.
