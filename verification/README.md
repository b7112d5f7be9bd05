# solite

The interaction core of an HTML/CSS user interface: text fields, selects, focus
order, reactive state, resource bookkeeping and event routing. The library
decides what an event means; a host performs it on a document and its scripts.

## Layout

- `src/` is the library. Verus proves its functions against their contracts; what
  is believed instead is listed below.
- `app/` is a host: a Blitz document, QuickJS scripts, a winit window, files and
  HTTP. It holds what is floating point or touches the outside.
- `tests/` runs the library on concrete values.

## How a dispatch runs

A dispatch starts with a decision, such as `Instance::dispatch_mouse` or
`Instance::dispatch_key_down`. The decision returns a `Turn`: the work to perform
on the document, in order, and the stage that comes next. The host performs the
work, reports what the fired events asked for with `Instance::settle`, and calls
the function of the next stage, until there is none.

## What is trusted

Calls into other crates and into parts of the standard library stand behind small
wrapper functions whose contracts are believed: URLs and `data:` URLs, the
clock, Unicode lowercase, paths, and telling apart the keys and buttons of winit.
Each wrapper says what it claims in its doc comment.
