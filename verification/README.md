# fgit_publication

The decisions behind publishing a reviewed Git bundle to a single node, written
and proved in Verus. A bundle is transport and never authority: the operator
names the branch, the old tip, the commit that a series builds on and the
reviewed new tip, and everything in the bundle is held against those names.

- `src/` is the verified library. It reads bundle headers, stages bundles,
  publishes rebases and workspace commits, reads the command line, writes
  receipts and routes the commands of the program. Whatever needs the node is an
  action that a state machine asks for and an event that answers it. The modules
  that end in `_laws` state what holds of every course of such a machine, and of
  every bundle, command line and receipt.
- `tests/` runs the library on concrete values, the machines against a node in
  memory.
- `app/` is the program around the library: arguments, files, standard streams,
  and the node of the `fgit` crates as a port that does the work.
