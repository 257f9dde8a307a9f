# model_meter

A desktop meter of DeepSeek and MiMo platform usage: balances, token counts per
model family and day, costs, and the windows that show them.

- `src/` is the verified library (Verus): the rules of the dashboards (which models
  count, how days are grouped and totalled, which errors are shown, when a login is
  given up), the settings document, text and number formatting, where windows go and
  when they stick to a screen edge, and the checks of the settings page.
- `tests/` runs the library on concrete values.
- `app/` is the desktop side in plain Rust: HTTP requests, files, the registry, the
  local callback server, the refresh timer and the glue to the window system. It
  performs what the library decides; amounts of money, which are floating-point, are
  summed there.
