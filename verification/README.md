# live_scraper

The decisions of a live trading scraper for a market of game items, verified with
Verus: which items are worth watching, which of them a budget can buy, which entries
to work on, and what to do about each order.

## Layout

- `src/` is the library. `amount` holds the numbers that everything is counted in,
  `average` their averages and extremes, `knapsack` the choice of what to buy,
  `rankless` the treatment of mods with few ranks, `interesting` the choice of items,
  `entries` the list of items to work on, `orders` the user's orders, `progress` the
  steps of an order, `model` the data and `text` strings.
- `app/` connects the library to the cache, the database and the market.
- `tests/` runs the library on examples.

## Numbers

Prices are floating-point numbers in the program. The library is written for any type
that implements `amount::Amount` and states its results in terms of the type's own
operations. Of arithmetic it assumes only what the trait has an implementation prove of
a few whole numbers, such as that one is above zero. It implements the trait for `i64`;
`app/plat.rs` implements it for `f64`, and that implementation is not verified. Laws
that need more, such as the optimality of a selection, name what they need.
