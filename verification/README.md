# corx

The engine of a CORS forwarding proxy, verified with Verus.

`src/` is the library. It decides which target a request names, whether that
target may be reached, which headers travel, how redirects are followed, what a
browser is told, and which configurations are rejected. Every function has a
contract, and the laws of the library are public proof functions whose names
begin with `law_`.

Some settings are data that the library holds, gives defaults and, in part,
validates, but does not act on: `require_header`, `block_methods`, the origin
lists, bearer authentication and the preflight mode under `security`; the rate
limits; the limits on bodies and time; and the `block` and `rewrite` redirect
policies. A host that wants them enforces them around the library.

| Module                | What it holds                                            |
| --------------------- | -------------------------------------------------------- |
| `config`              | configuration data, defaults, validation                 |
| `policy::target`      | host and scheme admission                                |
| `policy::circuit`     | circuit breaker of each upstream host                    |
| `proxy::url_parser`   | the target URL of a request                              |
| `proxy::ssrf`         | the guard over resolved addresses                        |
| `proxy::cors`         | CORS response headers and preflights                     |
| `proxy::headers`      | hop-by-hop and deny-list filtering                       |
| `proxy::forwarded`    | `x-forwarded-*`, `forwarded` and `x-request-id`          |
| `proxy::redirect`     | one redirect hop                                         |
| `proxy::upstream`     | a request from its first hop to its last                 |
| `basic`               | a smaller engine with fewer rules                        |
| `error`               | the error taxonomy                                       |
| `header`, `uri`, `net`| what is trusted of the `http`, `url`, `idna`, `percent-encoding` and `ipnet` crates |
| `text`, `time`, `message`, `util` | plain data and text operations               |

`app/` is the program around it: command line, configuration file, name
resolution, the HTTP client and server. `tests/` runs the library with the real
crates linked.
