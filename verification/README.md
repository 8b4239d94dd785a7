# bootart

The installer core of Bootart, verified with Verus: it selects an exact
initramfs/real-root adapter pair, builds and checks the install plan (the
whole-file payloads, shared-file snippets, activation links and safety
records), plans and checks each adapter's generator contract, inspects
candidate initramfs archives, and runs installation, uninstallation and
recovery as transactions with a journal, a manifest and rollback.

- `src/` is the library. Every function there is verified against its
  `requires`/`ensures`; calls into `sha2` and `ruzstd`, and a few std
  functions, go through small trusted wrappers whose contracts are stated
  in their doc comments.  SHA-256 comes from `sha2`, behind one wrapper in
  `src/digest.rs`; the rest of the hashing (what is hashed, how digests are
  compared and framed) is the library's own.
- `tests/` runs the library on concrete inputs.
- `app/` is the host-facing edge: reading and writing files and
  directories, observing node metadata, and reading the running executable.
  It decides nothing that the library does not decide.

A transaction is split the same way.  `src/install_engine.rs` decides what
an installation writes (`install_actions`: payloads, patched shared files
and links, sorted by path), what each destination held (`journal_entries`),
which destinations may be replaced (`destination_check`), the committed
manifest (`install_manifest`), and what an uninstallation removes, restores
and preserves (`uninstall_report`, `remaining_manifest`).
`src/transaction.rs` holds the step machines `apply_step` and
`uninstall_step`, and `src/status.rs` the recovery decision `recovery_step`;
`src/installer.rs` holds the `Installer` with its seams and its mutation
lock.  `app/engine.rs` runs the loops: it performs each action the step
machine names and hands back how it went.

`src/install_plan.rs` holds the plan: `build_install_plan`,
`safety_records_for_plan` and `validate_plan`, whose result is `Ok` exactly
when `plan_valid` holds. `src/plan_identity.rs` and `src/plan_render.rs`
give the plan's identity and its JSON and human renderings, each equal to a
spec function of the plan.
