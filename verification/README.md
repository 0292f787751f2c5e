# Pipec

Pipec is a terminal application to edit command pipelines. Commands are kept as
stages, each with its own line; the output of every stage is kept and reused as
long as the command and those before it do not change.

The logic is a library, `src/`, written in Verus: what each function does is
stated in its contract and proved. `app/` is the terminal program around it. It
starts processes, reads and writes their pipes, and draws what the library tells
it to draw.

## Layout of `src/`

* `app` – the state of the application, what keys mean, and what actions do.
* `event_loop` – what to wait for next, and what comes of each event.
* `pipeline` – executions of commands, and how they are reused.
* `parser` – splitting of shell pipelines into commands.
* `laws` – laws of the application as a whole. Other laws stand in the modules
  that they are about; all of them have names that begin with `law_`.
* `bytes`, `input` – output buffers and text fields, kept in collections of other
  crates.
* `id_generator`, `options`, `text` – small helpers.
* `ui` – what is drawn: styled text, places on the screen, highlighting of
  commands, rendering of output that need not be text, the help and the popups.

## What is trusted

Calls into other crates stand behind functions and declarations whose contracts
are believed, not proved. They are in `bytes`, `input`, `text`, `ui::content`,
`ui::layout`, `ui::binary`, `ui::highlight` and `ui::key_name`; each says which function of which
crate it stands for, and what it claims of it.
