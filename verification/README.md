# pman_server

A small password-storage web server built on Rocket.

- `src/` is the verified library: the API key store and the key-file
  format (`api_keys`), the configuration and its defaults (`config`), the
  logger handle and the log lines (`logs`), the texts and paths of the routes
  (`routes`), the backup clean-up rule (`jobs`) and decimal rendering
  (`text`).
- `app/` is the server program: reading files, the Rocket routes, request
  guards and fairing, and the scheduled clean-up job.
- `tests/` runs the library on concrete inputs.
