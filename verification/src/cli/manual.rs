//! The sections of the manual for agents.
use vstd::prelude::*;

verus! {

/// What stands at the start of every manual.
pub const INTRO: &'static str = "# omniFUSE — skill manual

omniFUSE mounts git repositories, wikis and S3-compatible buckets as local
directories. Work with the files by ordinary tools; changes are synchronized
in the background. No lock is taken: people and agents may edit at once.

- Local changes rest for a moment and are then sent in one batch. Closing a
  file sends its changes at once.
- Remote changes are fetched at intervals. A file with local changes that were
  not sent yet is never overwritten by them.
- Credentials stay with the process that mounts; they are not visible below the
  mount point.
";

/// The section on Git mounts.
pub const MOUNT_GIT: &'static str = "## `of mount git`

    of mount git <SOURCE> <MOUNTPOINT> [--branch NAME] [--poll-interval SECS]

Mounts a remote repository or a local clone. Every batch of changes becomes a
commit that is pushed to the remote. The directory `.git` is hidden.

### Conflict behavior

Concurrent changes are merged by git: fast-forward, merge commit, or conflict
markers in the file. Look for conflict markers after a push was reported with
conflicts, mend the file and save it.
";

/// The section on wiki mounts.
pub const MOUNT_WIKI: &'static str = "## `of mount wiki`

    of mount wiki <BASE_URL> <ROOT_SLUG> <MOUNTPOINT> --auth TOKEN

Mounts the pages of a wiki as `.md` files. The token may come from the variable
`OMNIFUSE_WIKI_TOKEN`, the organization from `OMNIFUSE_WIKI_ORG_ID`.

### Conflict behavior

Edits are sent through the interface of the wiki with a three-way merge: changes
to different lines are joined, changes to the same lines are a conflict and the
local file stays as it is.
";

/// The section on S3 mounts.
pub const MOUNT_S3: &'static str = "## `of mount s3`

    of mount s3 <BUCKET> <MOUNTPOINT> [--endpoint URL] [--region NAME] [--prefix PATH]

Mounts an S3-compatible bucket. Keys come from `OMNIFUSE_S3_ACCESS_KEY_ID` and
`OMNIFUSE_S3_SECRET_ACCESS_KEY`.

### Conflict behavior

Objects are written with `If-Match` or `If-None-Match`, so that a concurrent
update is never overwritten. Text objects are joined by a three-way merge; for
binary objects that changed on both sides a conflict is reported.

### Capability requirements

The provider has to offer conditional writes. Without them the mount is refused.
";

/// The section on the check command.
pub const CHECK: &'static str = "## `of check`

    of check

Says whether a FUSE driver is installed. Fails, with a hint how to install one,
where there is none.
";

/// The section on the sample configuration.
pub const GEN_CONFIG: &'static str = "## `of gen-config`

    of gen-config

Prints a sample configuration with a git and a wiki backend.
";

/// The section on the manual itself.
pub const SKILL_SELF: &'static str = "## `of skill`

    of skill [SUBCOMMAND...] [--for TOOL]
    of [SUBCOMMAND...] --skill [--for TOOL]

Prints this manual. Both forms give the same text.
";

/// What is added for the agents of OpenAI.
pub const FOR_OPENAI: &'static str = "## For OpenAI agents

Give the shell tool the mount point as its working directory.
";

/// What is added for LangChain.
pub const FOR_LANGCHAIN: &'static str = "## For LangChain

Use `ShellTool` with commands below the mount point.
";

/// A sample configuration.
pub const SAMPLE_CONFIG: &'static str = "# OmniFuse — sample configuration
# Location: ~/.config/omnifuse/config.toml

[backends.my-repo]
type = \"git\"
remote = \"https://github.com/user/repo\"
branch = \"main\"

[backends.my-wiki]
type = \"wiki\"
url = \"https://wiki.example.com\"
root_slug = \"my/project\"
token = \"secret\"

[mounts.\"/home/user/mnt/repo\"]
backend = \"my-repo\"
sync_interval = \"30s\"
debounce = \"1s\"

[mounts.\"/home/user/mnt/wiki\"]
backend = \"my-wiki\"
sync_interval = \"60s\"
";

} // verus!
