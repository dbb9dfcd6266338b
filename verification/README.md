# kemono_tools

A downloader for a post archive site: sign in, list a creator's posts, and
download a post's files into a folder of their own, next to an HTML page that
shows the post.

- `src/` is the library, verified with Verus: the records of the API and the
  addresses and headers of its requests (`api`), the settings and the record of
  every download (`settings`), the download queue, the retry rule and the
  decisions of one transfer (`downloader`), SHA-256 digests (`hashing`), the
  post page and folder names (`html_generator`, `page_template`), paths
  (`paths`), and the decisions of the commands (`commands`).
- `app/` is a command-line program around it: HTTP requests, files, JSON,
  waiting, and the worker task.
- `tests/` runs the library on concrete values.
