# ro_inventario

Point of sale and inventory for a stationery shop. The decisions and the
arithmetic of the system live in a library verified with Verus; a thin web
server around it reads requests, talks to PostgreSQL and renders pages.

## Layout

- `src/` — the verified library.
  - `dinero.rs`: amounts of money as mantissa and scale, with every
    operation carried out by `rust_decimal`.
  - `modules/ventas/`: sales, the grouping of the day's rows into sales, the
    daily summary, the plan of a new sale and the redemption of wallet money.
  - `modules/productos/`, `modules/clientes/`: how product and customer
    searches are carried out.
  - `db/settings.rs`: the business parameters read at start-up.
  - `auth/`, `repos/`, `controllers/`, `models/`, `validators/`: login
    decisions, password checks (HMAC-SHA512, PBKDF2-SHA512) and validation.
  - `texto.rs`, `identificador.rs`, `error.rs`: text, UUIDs and errors.
- `tests/` — tests of the library on concrete values.
- `app/` — the web server (axum, axum-login, sqlx, askama, reqwest): it
  runs the queries and hands their rows to the library.

## Verifying and testing

The library is verified with Verus; `tests/` runs against the compiled
library with the real outside crates linked.
