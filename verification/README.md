# lambda-chaos-extension

A Lambda extension that sits between a function and the Lambda runtime API
and injects faults: it can delay the hand-out of the next invocation and
replace an invocation's response. It comes with the report formatting of a
small tool that prints the caller's AWS identity.

- `src/` is the verified library: reading the settings from the raw values of
  the environment variables (`settings`), the runtime-API URLs, the header
  stripping and the fault decisions (`routes`), and the identity report
  (`identity`).
- `app/` is the program around it: the HTTP proxy, the environment, the
  random draw, the sleep, and the AWS calls.
- `tests/` runs the library on concrete values.

Settings (environment variables):

- `CHAOS_EXTENSION__LAMBDA__ENABLE_LATENCY`: `true` or `false`, default `false`.
- `CHAOS_EXTENSION__LAMBDA__LATENCY_VALUE`: seconds, default `900`.
- `CHAOS_EXTENSION__LAMBDA__LATENCY_PROBABILITY`: 0 to 1, default `0.9`.
- `CHAOS_EXTENSION__RESPONSE__ENABLE_CHANGE_RESPONSE_BODY`: `true` or `false`, default `false`.
- `CHAOS_EXTENSION__RESPONSE__DEFAULT_RESPONSE`: the replacement response,
  default `{"body":"hello, Chaos!!!","statusCode":500}`.
- `CHAOS_EXTENSION__RESPONSE__CHANGE_RESPONSE_PROBABILITY`: 0 to 1, default `0.9`.
