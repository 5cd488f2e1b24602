# proxy-manager

A command-line manager for an Nginx reverse proxy that routes host ports to
Docker containers. The configuration (containers, routes, proxy name and
network) is kept as JSON in the user's data directory; from it the program
renders `nginx.conf` and a `Dockerfile`, builds the proxy image and runs the
proxy container.

The library in `src/` is verified with Verus. The functions on the
configuration and the texts state exactly what they return or change. The
operations that talk to the Docker engine state which requests they make,
with which arguments and in which order, and what they return for each
answer the engine gives; the answers themselves are the engine's. The
properties that span several operations are proved as lemmas.

- `config`: the configuration model, lookups by name, label and port, adding,
  updating and removing containers and routes (routes kept sorted by port).
- `nginx`, `manager`, `docker`: the generated files and the texts shown.
- `ops`: the operations of the command line, over a configuration and a
  `DockerRuntime` (the engine, implemented outside the library).
- `paths`, `store`, `install`: locations of files, and the `PATH` notice.
- `tui`, `tui_app`, `tui_view`: the key handling and texts of the two text
  interfaces.
- `text`: decimal rendering, joining, searching and path joining.

`app/` holds the program around the library: argument parsing, reading and
writing files, and the Docker engine reached through bollard.
