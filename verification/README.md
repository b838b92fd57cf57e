# storage

A gateway in front of S3-compatible backends: clients ask for an object of a
set (`BUCKET::LABEL`) and are redirected to a presigned URL of the backend, or
ask for a signed URL that they then use themselves. Requests are
authenticated with JSON Web Tokens and authorized per audience.

## Layout

- `src/` — the verified library (Verus):
  - `labels`, `text`, `assoc`: dotted names, strings and small maps kept as
    vectors of pairs, with their models;
  - `audience`: buckets, sets and the estimation of a bucket's audience
    (a radix trie of reversed names);
  - `config`: audience settings (which referers may read) and CORS origins;
  - `authn`, `jws`: bearer tokens, accounts and the checks of tokens;
  - `authz`: authorization objects, actions and the answers of the service;
  - `s3`: the backend client, proxy hosts by country and the signed-request
    builder;
  - `backend`: backends and cache settings read from the environment;
  - `endpoints`, `sign`: what each HTTP endpoint decides and answers;
  - `error`: the kinds of errors and their HTTP statuses;
  - `tag`: the queries of set tags.
- `tests/`: tests of the library.
- `app/`: the HTTP server (axum), configuration loading, logging, the
  authorization service and the GeoIP lookup, around the library.
