# Jelly

Jelly is a shell for constrained devices running RIOT. It talks slipmux
over a serial line: diagnostic text messages, CoAP configuration messages
and IP packets share one UART.

This crate holds the shell's logic as a library verified with Verus, and a
thin program around it.

## Layout

- `src/` is the verified library.
  - `app/` is the interactive shell's state: the input line, the jobs it
    runs, and what it does with each key, line, answer and connection.
  - `command/` holds the commands a user can type, the library that keeps
    the ones available on the device, and one module per command under
    `command/commands/` (SAUL, `ps`, memory reads, `ifconfig`, the crawler
    and others), each a small state machine from answers to requests.
  - `datatypes/` holds the logs (diagnostic text, CoAP requests and
    responses, IP packets, jobs) and the line editor.
  - `cbor.rs`, `numfmt.rs`, `text.rs` and `columns.rs` are the encoders,
    decoders and text layout the rest builds on.
  - `wire.rs` frames and unframes what goes over the serial line: the
    slipmux decoder fed one read at a time, the meaning of each frame, and
    the frames for diagnostic text, CoAP requests and IP packets.
  - `tui.rs` is the state of the first terminal front end; `headless.rs`
    decides when a scripted session ends; `network.rs` names the network
    interface.
- `app/` is the program: command-line arguments, reading and writing the
  serial port, the TUN interface, the terminal and the event loops. It
  hands the library plain values and performs what the library asks for.
- `tests/` runs the library on concrete values.

Calls into other crates (minicbor, coap-lite, cbor-edn, url, slipmux, pnet
and std's formatting) go through small trusted functions whose contracts state
what those crates' sources and documentation show; each names the function
it calls, and where a call stops on some input (cbor-edn's `from_cbor` on an
indefinite-length string closed at once), its contract leaves that input out
and the library checks for it first.

The answers to SAUL reads and writes are SenML, shown through the `senml`
crate; that crate is not part of this build, so the program shows those
answers without text (the library takes that text as an argument).
