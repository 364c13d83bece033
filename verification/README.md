# cryptos

The decision logic of a Binance trading service, verified with Verus.

`src/` is the verified library:

- `timing` — candle steps and opening times by interval, the wall clock,
  and the UTC month and day of an instant.
- `text` — decimal rendering and parsing of integers, splitting and joining.
- `signing` — form-encoded queries with their HMAC-SHA256 signature, and
  RSA-signed order payloads.
- `replies` — script replies of the key-value cache as plain values.
- `repositories` — the rules of the service: which klines to fetch again,
  when a kline series may be used, when a strategy signal is recorded, the
  amount of a plan, when and at which prices a scalping plan is placed, the
  take-profit plans of a futures position, the user id of an encrypted
  token, encrypted payloads, and the requests sent to the exchange.
- `streams` — payloads and records of the exchange's API stream.

Prices and quantities are whole numbers of 10^-8 units in the library.
Calls into outside crates (url, hmac, sha2, hex, base64, rsa, chrono,
josekit) stand behind small trusted functions whose contracts name what
the crate computes.

`app/` holds what the library does not: requests to the exchange, the
key-value cache, the serialised forms of the library's types, and the
arithmetic that works on floating-point prices.

`tests/` exercises the library on concrete values.
