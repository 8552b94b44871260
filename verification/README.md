# dioxus-field

A form-library-agnostic field convention for Dioxus widget libraries, with its logic verified by
Verus.

## Layout

- `src/` is the verified model, with every function proved against its contract:
  - `attribute`: attribute lists sorted by name and namespace with one entry per key, merging
    (`class` values join weakest-first), and the laws those lists obey.
  - `meta`: field metadata, and the attributes a control or field part derives from it. The laws
    say which attributes a control carries for every override and surface.
  - `options`: attribute surfaces and control options.
  - `registry`: the label, description and error ids that mounted parts register.
  - `focus`: the focus request slot.
  - `binding`: resolution precedence (explicit, then Field Context, then standalone state).
  - `text`: id lists, generated ids and diagnostic text.
  - `testing`: the state that the conformance probes record.
- `app/` connects the model to Dioxus: signals, hooks, the Field Context, callbacks, the headless
  `Field`, `Label`, `FieldDescription` and `FieldError` parts, and the probes' callbacks.
- `tests/` exercises the model on concrete values.
