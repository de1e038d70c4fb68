# ArcRelay web gateway

The rules of a file gateway for browsers in the local network, proved with
Verus: which requests are let in, which shares they may open, how shares are
unlocked with a password, and which part of a file is sent under which headers.

- `src/` is the library. It decides, and neither listens nor reads files.
- `app/` is the server around it: sockets, routes, JSON, the clock and the file
  service of the program that embeds the gateway.
- `tests/` runs the library.

| Modules | What they hold |
| --- | --- |
| `settings`, `supervisor` | settings, status, and how the gateway is started and stopped |
| `network_guard` | the checks in front of every route |
| `gateway`, `shares`, `cookies` | what the routes decide |
| `session`, `session_laws` | sessions and what holds of them |
| `auth_attempts` | the limit on wrong passwords |
| `admission`, `admission_laws`, `holders`, `stream_limits` | how many files are sent at one time |
| `content`, `ranges`, `dates` | sending a file or a part of it |
| `api_error`, `status` | what a refused request is answered |
| `assets`, `security_headers`, `headers` | the browser application and the headers of responses |
| `addr`, `numbers`, `order`, `random`, `text`, `vec_map` | what the rest is written in |

Each `law_` function states one property of the library as a whole.
