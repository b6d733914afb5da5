# gitcore

Git identity management: one SSH key, host alias and commit identity per account,
a managed block in `~/.ssh/config`, remote URLs rewritten through the alias, a
security audit of key and config permissions, and password-encrypted vaults that
carry the configuration and the keys to another machine.

## Layout

- `src/` is the library, written in Verus. Each public function states in its
  contract what it returns; the laws that relate several functions (what adding
  then removing an account gives back, what a vault opened with its password
  holds, what reading back a spliced SSH block gives) are public proof functions
  beside them.
  - `models`, `accounts`: account records, the account-list invariant and the
    operations that keep it.
  - `git`, `repos`: URL rewriting and the git commands run in a repository.
  - `ssh`: the managed block of the SSH config and the reading of probe results.
  - `audit`, `storage`, `vault`: permission audits, what a backup embeds and a
    restore writes, and the vault file format with its AES-256-GCM and Argon2 calls.
  - `gpg`, `ui`, `command`, `cli`, `text`: reading `gpg` output and prompt answers,
    command messages, the command line, and the string operations they share.
- `app/` is the program around it: the command line, prompts, files, processes and
  JSON, calling the library for every decision.
- `tests/` runs the library on concrete values.
