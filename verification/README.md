# latex_bot

A Matrix bot that typesets LaTeX on request, with its decisions verified by
Verus.

- `src/` is the verified library: permission levels and checks
  (`permissions`), the command registry (`structures`), reading chat
  messages and command names (`messages`, `text`), the bot's commands and
  their answers (`commands`), the LaTeX document and rendering steps
  (`latex`), the login read from the prompts (`login`), and what the command
  framework's attribute macros compute (`values`, `framework`).
- `app/` is the program around it: the Matrix client, prompts, credential and
  configuration files, the token-level attribute macros, and the calls to
  tectonic and ImageMagick.
- `tests/` runs the library on concrete inputs.
