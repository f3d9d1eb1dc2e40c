# foxtown

The logic of the FoxTown shopping-centre site as a verified library: every
function in `src/` carries a contract that Verus proves.

- `text`, `order`: characters, trimming, decimal text, the order of `str`
  and a stable sort of positions by key.
- `cookies`, `i18n`, `site`: cookie headers, locales and translations,
  page decisions (language buttons, filters, floor colours, store search,
  news previews, consent, forms).
- `auth`: roles, the rule for protected actions, token claims, passwords,
  winners' public labels, the sign-up form.
- `cart`: the shopping cart.
- `parking`, `parking_sim`, `bitmap`: the parking layout, its validation and
  the occupancy bitmaps of the simulated lots.
- `game_rules`, `game`, `daily`, `draw`: the daily prize draw.
- `vouchers`, `voucher_admin`, `voucher_issue`: the voucher book, its daily
  quota and cool-down, the admin table, issuing a voucher.
- `content`, `store_form`: news, events, banners, store details and the
  store form.
- `map_editor`: the store-placement editor's lists, counts and floor
  buttons, and the markers of a floor plan.
- `visits`: visit histograms and advice.
- `clock`: the wall clock and RFC 3339 time stamps through chrono.

`app/` is a small command-line front (the voucher file, the translation
tables, environment, session tokens, SMTP delivery, floating-point drum
motion); `tests/` run the library.
