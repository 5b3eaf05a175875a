# fun8s_lite

A tool that builds a Kubernetes cluster across clouds on top of a nebula mesh
network with three commands: `init` (start the mesh's lighthouse), `create`
(prepare the certificate bundle of the next member and print its join token)
and `join` (join a host with such a token).

Layout:

- `src/` is the verified library:
  - `text`: `replace`, `trim`, `lines`, `contains` on characters, with their
    specifications;
  - `net`: IP networks, the next free address of a network's block, and the
    CIDR text that the address book saves and loads;
  - `codec`: base64 and UTF-8 framing;
  - `token`: the join argument and the token it travels in;
  - `mesh`, `k8s`: the scripts and configuration texts of the mesh and the
    cluster, and what each step's outcome means;
  - `setup`, `error`: shared decisions and the error messages.
- `tests/`: tests of the library on concrete values.
- `app/`: the command-line program, which runs the commands and scripts and
  reads and writes the files.
