# pubky_cli

A command line companion for Pubky homeservers, written as a Verus-verified
library (`src/`) and a thin program around it (`app/`).

The library holds what the commands decide and compute:

- `cli`, `admin`, `user`, `tools`: the parsed command line as plain data.
- `admin`: the admin URL (with the `http://` fallback), admin API endpoints,
  the request each admin command makes (key parsing, entry-path
  normalization and the `/pub/` rule) and the `info` report.
- `util`: comma-separated configuration lists, the network configuration
  chosen from the environment, and recovery files (decrypting, creating).
- `keys`: public keys as the Pubky SDK reads and writes them.
- `text`: trimming, splitting and decimal numbers, with their laws.
- `user`: the listing request (Pubky URL or homeserver HTTPS URL, and its
  options) and the lines that the user commands print.
- `tools`: the texts that the helper commands print.

Calls into the Pubky SDK and the `url` crate are made through small trusted
wrappers whose contracts name what the outside code returns.

The program in `app/` parses arguments with clap, reads files, the
environment and passwords, and performs the HTTP and SDK calls.
