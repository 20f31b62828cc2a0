# daedalus

The verified core of Daedalus, a desktop front end for `yt-dlp` and `ffmpeg`.

`src/` is a Verus library. It decides everything the application decides:

- `args`, `split`, `download`: the settings a download request may carry, the
  output file name template, the format selector, the splitting of free-form
  extra arguments, and the full `yt-dlp` command line (`build_download_args`),
  each specified exactly over the request.
- `metadata`: what a probe of a source reports, from the fields of yt-dlp's JSON.
- `output`: reading what tools print (errors, progress, versions) and the
  outcome of a run.
- `tools`, `archive`: tool status, installation plans, and which executables
  are taken out of the downloaded ffmpeg and Deno archives (through the `zip`
  crate).
- `paths`, `locations`, `candidates`: the directories and executables the
  application uses, derived from the environment variables it reads.
- `launch`: the start-up licence decision, as a step function the application
  drives.

Proof functions whose names start with `law_` state properties of the library
as a whole (for instance, that plain words joined by spaces split back into the
same words, or that every output template names the file extension).

`app/` is the Tauri application around the library: the commands the interface
calls, serde shapes, and all work with files, processes, the network and the
environment. `tests/` exercises the library on concrete values.
