# rush_cache_server

An authenticated HTTP build cache for Rush monorepos: `GET`/`PUT
/artifacts/{cacheId}` proxied to an S3 bucket behind two tiers of Bearer
tokens, and `GET /health`.

The library under `src/` holds the server's logic, verified with Verus:

- `app_settings` — the token store (read-write wins over read-only), the
  comma-separated token lists, and the settings built from the configuration
  values with their defaults and the errors that stop the server.
- `auth::bearer_token` — the `Authorization` header: the case-insensitive
  `Bearer ` scheme, the token lookup, and the loggable token prefix.
- `routes` — the replies of the artifact and health routes: 401, 403, 404,
  413, 503 and 500 with their messages, 200 otherwise, and the meter that
  holds uploads to `MAX_BODY_SIZE`.
- `storage` — object keys (`{prefix}/{cacheId}`), the mapping of S3 failures
  (404 is a missing object), the region and credentials chosen from the
  settings, the bucket handle built from them, and the put-then-get law.
- `telemetry` — the `OTEL_SDK_DISABLED` and OTLP endpoint settings.
- `text` — trimming, splitting and unsigned-integer parsing on characters.
- `s3_types` — the `s3` crate's types that the logic carries.

`app/` is the server around it: environment variables, actix-web handlers
and middleware, the streaming S3 calls, tracing and OpenTelemetry setup.
