# EVMcrispr API

The handlers behind the EVMcrispr API, as a library that is verified with Verus, and the
components of the Spin framework that run them.

| URL | Module | Description |
| --- | --- | --- |
| `/cors-proxy/<url>` | `cors_proxy` | streaming proxy for servers on an allowlist |
| `/fetch/<url>` | `fetch_proxy` | proxy for reading public pages over HTTPS |
| `/search?q=<query>&count=<n>` | `search` | web search |
| `/tokenlist/<chainId>` | `tokenlist` | token list made of those of CoinGecko and Superfluid |
| `/abi/<chainId>/<contractAddress>` | `abi` | ABIs of verified contracts |
| `/experimental-eez-rpc/<chain>` | `eez` | one JSON-RPC endpoint for each EEZ chain |

- `src/` is the library. A handler that waits for something outside is a row of steps: each
  step says what to do next, and holds what the handler goes on with. What the steps are is
  stated by spec functions such as `begins` and `goes_on`, and proved of the code.
- Calls into other crates stand behind functions marked `external_body`. Their contracts are
  believed, not proved; a comment above each says what it claims.
- `tests/` runs the library.
- `app/` reads requests, does what the steps say, and writes answers. It is not verified.
