# Sentinella

The decision logic of the Sentinella endpoint agent, verified with Verus.

- `src/amsi_provider` is what runs inside a scripting host: decoding the content
  that the host hands over, asking the daemon about it within a budget, and
  failing open on everything but an explicit block. It also holds the answers of
  the COM surface and the registration of the provider.
- `src/clamav_worker.rs` is the isolated ClamAV worker: who may start one, how its
  run is watched, and which of its answers counts.
- `src/web_protection` is the DNS filter: bringing the proxy up, installing the
  rule that sends the machine's names to it, watching the two, and taking the rule
  away again before it can leave the machine without DNS.
- `src/text.rs` and `src/utf16.rs` are the text operations under them.

Where outside work and decisions alternate, the library holds a run: a value that
names the next action, with a step that takes in what the action came to. `app/`
performs the actions. It holds the threads, pipes, processes, sockets, registry
calls and serialisation.

What is believed without proof is marked where it stands: a few calls into
`serde_json` (`src/amsi_provider/json.rs`), `uuid` and the standard library.
