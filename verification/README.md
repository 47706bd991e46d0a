# gitweb-release-downloader

The rules behind `grd`, a command line tool that downloads release assets from GitHub,
Gitea (including Forgejo) and GitLab, written in Verus: every function in `src/` has a
contract, and Verus proves it.

| Module       | What it decides                                                           |
| ------------ | ------------------------------------------------------------------------- |
| `notation`   | how a repository is written on the command line                           |
| `repository` | where the releases of a repository are listed                             |
| `fetch`      | when the cache answers, and how a listing is read page by page            |
| `listing`    | the pages of a listing                                                    |
| `cache`      | where a listing is kept, and for how long                                 |
| `selection`  | which release and which assets are meant                                  |
| `pattern`    | regular expressions for tags and asset names                              |
| `download`   | where a single asset comes from                                           |
| `bulk`       | the assets of many releases, and which files are skipped                  |
| `request`    | the headers of requests and replies                                       |
| `retry`      | when a request is repeated, and after how long                            |
| `transfer`   | writing a body to a file chunk by chunk                                   |
| `network`    | which addresses of a host are connected to                                |
| `models`     | releases and assets                                                       |
| `text`       | characters and decimal numbers                                            |

What is believed without proof stands in `pattern`: two functions that call the `regex`
crate, with a name for the answer of a match. Laws that relate several functions are the
public proof functions named `lemma_...`.

`app/` is the program around the library: the command line, the network, the file system
and the terminal. Its outside work is driven by the library's state machines (`Fetch`,
`Retry`, `Transfer`, `BulkDownload`).
