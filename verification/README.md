# smart_hedge

The verified core of the smart-hedge research tooling, written in Verus.

- `src/` is the library. Its functions carry `requires`/`ensures` contracts
  that Verus proves; the few small wrappers that call std or `serde_json`
  are marked `external_body`, and their contracts are trusted. The laws the
  library keeps stand there as proof functions named `law_*`:
  - `args`: the command line (commands, `--flag value` options, the
    `str::parse::<f64>` grammar for decimal flags);
  - `json`, `config`, `defaults`: JSON text parsed into the library's value
    type, the configuration tree, its deep merge and the environment
    overrides;
  - `paths`: `~` expansion, lexical normalisation, the core binary's location;
  - `http`, `routes`, `html`: the dashboard's request parsing, bounds,
    routing, JSON responses and its page;
  - `rss_xml`, `evidence`, `evidence_file`: feed entry extraction, evidence
    labels, FRED observations, and the rows of an operator's evidence file
    (with the compact JSON text of a value);
  - `alpaca`: the read-only market-data adapter's credentials check, base
    URL, and the bars and quote it reads from its responses (prices kept as
    the JSON text written);
  - `market_hours`, `rng`: the regular session and the synthetic fixture's
    generator and seeds;
  - `mcp`, `guard`: JSON-RPC requests and replies, the paper-order intent;
  - `engine`, `self_test`: provider and adviser selection, contract kinds,
    the health report, replay marking, and the paper-only self-test checks;
  - `autonomous`, `guard_cycle`: the autonomous loop's stop file, iteration
    limit and consecutive-error circuit breaker, and what one
    recommendation-to-guard cycle proposes and how its outcome is read;
  - `audit`: the no-order-placement source scan;
  - `errors`: the error types and their messages.
- `app/` is the program around it: reading files, the environment and the
  network, running processes, and the floating-point statistics.
- `tests/` exercises the library on concrete inputs.
