# ghfs

Mounts a GitHub repository as a file system.  It is fetched through the GitHub API, so a large
repository need not be cloned: what is in a directory, its files and the lists of its subdirectories,
starts on its way in the background once the directory is first looked into, and is waited for where
it is used.

```
$ ghfs https://github.com/<owner>/<repo> /path/to/directory
$ ghfs mount <owner>/<repo>?branch=<branch> /path/to/directory
$ ghfs mount <owner>/<repo>?rev=<revision> /path/to/directory
$ ghfs token set
```

## Layout

`src/` is the library, verified with Verus.

- `github_api`, `patterns`, `text`: how a repository is named, which requests lead to its root
  directory, and what the replies mean.
- `filesystem`, `file`, `operation`: the inode table, and how each request changes it.
- `directory`: how the entries of a directory arrive, are looked up and are listed.
- `access`, `content`, `content_key`: the attributes and the contents of files.
- `handler`: each request of the kernel, from its arrival to its answer.
- `laws`: what holds of the table whatever is asked of it.
- `cache`, `key_index`: a cache that knows its least recently used entry.
- `storage`, `clock`: paths on disk, the credentials file, points in time.

`app/` is the program around it: the command line, FUSE, HTTP and the disk.  A request is carried out
in steps: the library says what to wait for or which content to bring, and the program brings it.
