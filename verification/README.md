# xray2surge

Converts proxy subscriptions (Base64 lists of `vless://`, `hysteria2://` and
`hy2://` links) into a Surge `[Proxy]` section, with an Xray configuration
that serves the VLESS proxies on local SOCKS ports.

- `src/` is the verified library (Verus): link parsing (`link`, `vless`,
  `hysteria2`), subscription handling (`subscription`), telling proxies that
  share a name apart (`dedup`), the Xray configuration
  (`xray`), the Surge list (`surge`), settings (`config`) and text utilities
  (`text`). Each public function's contract states its result; the laws that
  tie the functions together are proof functions named `law_*`.
- `app/` is the HTTP server around it: environment, fetching, serialising and
  writing the Xray configuration, and the response.
- `tests/` runs the library on concrete inputs.
