# kaspa-miner

KASPilot, a Kaspa mining operations tool (ASIC fleet report, GPU engine
watchdog, CPU dev miner), built around a library whose logic is verified
with Verus.

- `src/` is the verified library.
  - `xoshiro`, `matrix`, `kheavyhash`: the XoShiRo256++ generator, the
    per-job 64×64 matrix, the kHeavyHash matrix step, target comparison
    and the nonce batch scan. The two Keccak hashes come from
    `kaspa_hashes` through the trusted items in `hashes`.
  - `stratum::protocol`: request lines sent to the pool, the model of the
    pool's JSON, job decoding from the two-parameter `mining.notify`,
    extranonce prefixes, and what each pool message asks of the miner.
  - `miner`: thread start nonces and the proofs that threads never hash
    the same nonce within a bounded number of tries: 21882289479697683
    tries each for the first 512 threads with no pool prefix, and a
    smaller bound for each prefix length (a 2-byte prefix leaves
    199995236164 tries each).
  - `config`, `gpu`, `fleet`, `stats`, `tui`: configuration checks, pool
    URL parsing, GPU placeholder expansion and restart decisions, fleet
    report text and totals, shared counters, and the dashboard's event
    handling.
  - `text`, `bytes`: character and byte operations with their specifications.
- `app/` is the program: command line, files, sockets, threads, the
  terminal, and the floating-point telemetry and rates.
- `tests/` runs the library on concrete values.
