# motovlog

Watches a directory for DJI footage. Once the directory has been quiet for a while, its clips
are one session: they are concatenated in the order in which they were shot, cropped to 16:9,
graded with a LUT, encoded to HEVC and uploaded to YouTube as one private video.

`src/` is the library. All that is decided is decided there, and verified with Verus:

| module        | what it holds                                                              |
|---------------|----------------------------------------------------------------------------|
| `paths`       | Unix paths as bytes: components, file names, extensions, joining, order    |
| `order`       | the order of byte strings and texts                                        |
| `sorting`     | stable sorting of paths                                                    |
| `text`        | decoding of bytes, search, facts about UTF-8                               |
| `quoting`     | escaping for ffmpeg's filtergraphs and concat lists                        |
| `clips`       | which files are clips, and the earliest capture date among them            |
| `gpu`         | what a probe says of the GPU                                               |
| `command`     | arguments of commands                                                      |
| `encode`      | the video filter, the concat list, ffmpeg's arguments and its result       |
| `publish`     | the properties of the uploaded video and its place in the playlist         |
| `pipeline`    | one batch as a state machine: list, encode, upload, playlist               |
| `watcher`     | the wait for a batch as a state machine                                    |
| `moving`      | the move of a batch's clips into a directory as a state machine            |
| `service`     | the service as a state machine: wait, process, move                        |
| `stamp`       | the names of the directories for failed batches                            |
| `credentials` | where the credentials for YouTube come from                                |
| `errors`      | what can go wrong, and how it is reported                                  |

`app/` does what the state machines ask for: it lists, moves and reads files, runs ffmpeg, watches
the directory and talks to YouTube.

What is taken on trust is marked `external_body` or `assume_specification`: decoding of bytes and
`String::push` from the standard library, the formatting of a date by `chrono`, and the reading of
a member of a JSON object by `serde_json`.

## Credentials

`YOUTUBE_CREDENTIALS` holds one line of JSON, `{"client_secret": ..., "token": ...}`. Where it is
not set, `credentials/client_secret.json` is read, and the token is kept in
`credentials/youtube_token.json`; the first run then asks for consent in a browser.
