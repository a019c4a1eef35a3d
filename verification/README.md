# elide_provider

The verified core of Elide's provider backends: the Pioneer GLiNER2
named-entity backend, the Deepgram and Gladia speech-to-text backends, and
the request body of the self-hosted `/transcribe` service.

- `src/` is the library, proved with Verus: request building, the reading of
  provider answers into spans and transcript segments (character offsets to
  byte offsets, inverted spans dropped, `SPEAKER_NN` labels), the decisions
  of one call, and how each failure is reported.
- `app/` holds what the library leaves to its caller: the HTTP calls, the
  float-second and float-score conversions, the serde shapes of the wire
  bodies, and a `Debug` that never prints the Pioneer API key.
- `tests/` exercises the library on concrete values.
