# spotifytops

A small web server that shows a Spotify listener's top artists and tracks.

- `src/` is the library, verified with Verus: the bounded session store
  (`mru_hashmap`), the request throttle (`throttling_future`), the retry
  decisions for Spotify requests (`spotify_future`), the settings
  (`config`), the URL and form encodings (`encoding`), the query parser
  and file helpers (`server`), the login and authorization addresses
  (`spotify::auth`), the request plans and answer shapes (`spotify`, `app`)
  and the routing of requests (`routes`).
- `app/` is the program around it: HTTP with hyper, the file system, the
  environment, serde, templates and the event loop.
- `tests/` runs the library on concrete values.
