# vpnmanager

A WireGuard VPN service: an account web application, a management API and
the WireGuard controls.

- `src/` is the verified library (Verus): rendering of WireGuard
  configurations and peer bookkeeping (`servermanager`), reading `wg`
  output (`wireguardapi`), traffic accounting (`monitoring`), API
  authorisation and statistics queries (`webinterface`), settings
  (`config`), and the account application's records and decisions
  (`webapp`), on top of verified string helpers (`text`) and a sorted
  string-keyed map (`strmap`).
- `app/` is the Rocket service around it: HTTP routes, the SQLite
  database, files, and the `wg` / `wg-quick` processes.
- `tests/` exercises the library on concrete values.
