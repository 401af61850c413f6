# SafeInstall

SafeInstall inspects remote installer scripts and package-manager commands
before they run: it downloads the artifact, looks for risky behaviour, asks
vulnerability databases and reputation services about it, scores the risk,
and only then offers to run it.

## Layout

- `src/` is the verified library.  Every function carries a contract that
  Verus proves; the calls into `regex`, `url`, `sha2` and std's UTF-8
  decoding sit behind small trusted wrappers whose contracts name their
  results.
  - `command` classifies what the user typed (URL, `curl | sh`, npm / pip /
    cargo install, anything else).
  - `source` extracts and validates installer URLs, decides the 20 MB
    download limit (the declared length, each received chunk, and the
    finished download are checked against it; the program's download loop
    calls these checks) and detects the installer kind.
  - `analyzer` holds the static rules, the energy-based score
    (`round(100 * (1 - e^(-S/60)))`, computed exactly over integers), CVE
    de-duplication, and the laws these obey (bounded, unchanged by any
    reordering of the findings, monotone, diminishing returns,
    de-duplication never raises the score).
  - `reputation/*` decide what each provider's answer means: trusted
    domains, URLHaus, OSV (including CVSS v3 base scores), GitHub
    Advisories, VirusTotal and Cloudflare Radar.
  - `registry` builds the package summary and the repository findings.
  - `report` and `executor` produce the terminal text, the confirmation
    policy and the interpreter command lines.
- `app/` is the command-line program around the library: argument parsing,
  the network requests, the settings file, JSON output, the prompt and the
  process launch, and the time-dependent floating-point weighting of
  vulnerability ages.
- `tests/` exercise the library on concrete inputs.
