# routiq

USDT -> ETH routing between Binance Spot and Uniswap V3 (Ethereum mainnet).

- `src/` is the verified library (Verus): ABI encoding of the ERC-20 and
  Uniswap calls (`abi`), hex text (`hexcodec`), hashes and MACs (`crypto`),
  text parsing and rendering (`text`), the Uniswap quote, fee-tier choice,
  slippage bound and execution plan (`uniswap`), the signed Binance market
  order and the depth-stream book state (`binance`), the decision of how to
  execute the best route (`execution`) and configuration switches
  (`settings`).
- `app/` is the HTTP server: configuration from the environment, the
  WebSocket and JSON-RPC traffic, and the floating-point pricing of quotes.
- `tests/` exercises the library on concrete values.
