# gem_endgame

Paper and live trading of Polymarket crypto UP/DOWN windows (5 and 15 minutes), with the
endgame strategy J: buy the side that the spot price shows as the winner late in the
window, hold it, and redeem at a dollar.

The crate is a library whose every function is verified with Verus, and a program around
it that does the input and output.

## Layout

`src/` is the library.

- Numbers: `num` holds an IEEE double by its bits; `num_ops`, `num_root`, `num_whole`,
  `rounding` and `decimal` give its arithmetic, correctly rounded; `num_laws` and
  `num_error` what follows from it, on order and on rounding; `number_text` and `number_format` read and write it.
- Texts and documents: `text`, `time`, `json`.
- Markets: `client`, `market_parse`, `orderbook`, `book_laws`, `asset_price`, `cex_micro`,
  `trade_tape`, `mid_cross_tracker`, `spot_series`, `volatility`, `maintenance`.
- Strategy: `config`, `strategy`, `endgame`, `strategy_j`, `j_controller`, `j_fees`,
  `j_laws`, `profit_laws`, `redeem_hold`, `entry`, `llm`, `llm_context`, `analytics`.
- Books and orders: `trader`, `j_paper_executor`, `live_session`, `live_executor`,
  `live_audit`, `h_stats`, `window_close`.
- The session: `session`, `session_laws`, `startup`, `daemon`.
- What is shown and logged: `dashboard`, `display`, `render`, `render_strategy`,
  `render_block`, `terminal`, `event_log`.

`tests/` runs the library on concrete values. `app/` is the program: feeds, files, the
HTTP dashboard, the background worker, the model service and the order book.

## Contracts

Money and prices are doubles. A contract states the exact double that comes out, rounding
included, so a test compares bits.

Public proof functions named `law_…` state what holds across functions: that confidence is
a share and knows no favourite side, that a coin flip buys nothing, that the money for the
profit target reaches it, that a fill takes its shares out of the book and pays within its
limit, that a hedge buys the other side within its limit, that an order which was refused
changes no books, that a window's price to beat is taken once.

Outside crates are called through a few small functions marked
`#[verifier::external_body]`, in `time` (chrono), `json` and `market_parse` (serde_json),
`live_executor` and `live_session` (alloy) and `text` (the standard library's case
mappings). The comment above each says what is taken on trust.
