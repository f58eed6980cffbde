# nxfutil

The verified core of a dispatcher that runs Nextflow pipelines in Azure Container Instances.

- `src/` is the library, verified with Verus:
  - `config_parser`: the `secrets.NAME` and `exParams.NAME` references of a Nextflow config,
    their Key Vault names, and the substitution of extended parameters;
  - `command`: the `nxfutil` command line a dispatch request starts, and URL parameters;
  - `status`: workflow status messages, their cleaning and the per-run summary;
  - `container`: provisioning states, container instance names and definitions, and the
    monitor that follows a deployment to an end state;
  - `nxfutil`: the arguments handed to Nextflow and the state machine of a run;
  - `weblog`: the messages a run posts; `auth`: the roles of a request;
  - `payloads`, `settings`, `server`, `text`: request and response bodies, settings, helpers.
- `app/` holds the programs (`handler`, `nxfutil`, `nxfutild`): HTTP, Azure calls, processes
  and files, driving the library.
- `tests/` exercises the library with the outside crates linked.
