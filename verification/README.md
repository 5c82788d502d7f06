# GBA Agentic Runner

A desktop runner for the Android CTS, GTS and STS suites kept in a local
`AUTO` folder (`CTS/`, `GTS/`, `STS/`, `Results/`): it lists ADB devices,
runs the MR, SMR, SKU, STS and laundry flows on them, watches tradefed,
retries failed results, and serves the same actions over a local HTTP API
on port 3030.

## Layout

- `src/`: the library, verified with Verus. It holds the rules of the
  runner as functions on plain values, each with a contract:
  - `plan`, `tools`, `versions`, `preflight`: which suites a test type
    runs, the tradefed commands and arguments, suite version selection,
    workspace layout and tool checks;
  - `monitor`: the watch over a running suite as a state machine (exit,
    completion marker, timeout, lost devices);
  - `active`, `registry`, `logctx`: the runs in progress and the busy-device
    registry shared between runs;
  - `request`: validation of a run request;
  - `summary`, `results`, `laundry`, `report`, `devices`, `snapshot`,
    `table`, `logs`, `status`, `suites`: reading tradefed output, result
    files and device properties, and what the window and the API show;
  - `text`, `num`, `order`, `paths`, `names`, `strmap`: the text, number,
    ordering and path helpers the rest is stated over.
  Public proof functions named `law_*` state what holds across calls.
- `tests/`: tests of the library on concrete values.
- `app/`: the program around the library: the Tauri window commands, the
  HTTP API, processes, files and ADB. It hands the library plain values and
  acts on what comes back.
