# hex

Hexadecimal decoding (`decode`, `FromHexError`), verified with Verus, with the
property functions that check it and the decisions of the workload runner
that drives them under several property-testing tools.

- `src/decode.rs`: `decode`, and what it gives for every input.
- `src/error.rs`: `FromHexError`, its message and its debug form.
- `src/etna.rs`: the two properties, each proved to pass on every input.
- `src/runner.rs`, `src/inputs.rs`: witness replay, the order of the runs,
  the JSON report, and the perturbation of inputs.
- `src/text.rs`: numerals and the escaped forms of characters and bytes.
- `app/`: the runner program (`etna`, and `etna-faultloc` by that name).
