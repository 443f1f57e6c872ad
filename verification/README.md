# cross_encode_rs

Reranking documents against a query with an ONNX cross-encoder, with the
request logic proved in Verus.

- `src/` — the verified library:
  - `tokenizer.rs`: loading a `tokenizer.json` into a `CrossTokenizer`
    (batch-longest padding, the file's truncation or a fallback length),
    encoding (query, document) pairs, padding a batch;
  - `ordering.rs`: the stable order of documents by token length;
  - `rerank.rs`: `RerankJob`, which cuts the ordered documents into batches,
    hands out each batch's model inputs and lays the batch scores back at the
    documents' input positions; `RerankResult`;
  - `inference.rs`: the row-major model inputs of a padded batch and the
    choice of score head;
  - `errors.rs`, `text.rs`: error kinds and their messages;
  - `stats.rs`, `data.rs`: order statistics, dataset entries and error texts
    for the benchmark;
  - `hub.rs`, `serving.rs`: model ids and cache names for the Hugging Face
    Hub; error answers, health answers and worker choice of the HTTP service;
  - `loaded.rs`: the parsed tokenizer and what is known of its
    configuration.
- `app/` — the program around it: `CrossEncoder` (file loading, ONNX Runtime
  sessions, the float scores), the Hub download, the server (`POST /rerank`,
  `GET /livez`, `GET /readyz`, graceful shutdown on SIGTERM), and the latency
  benchmark (`benchmark MODEL_DIRECTORY`).
- `tests/` — tests of the library on small inline tokenizers.
