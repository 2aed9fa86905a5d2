# webview_host

Verified core of an application's external-site window: a native window that
shows public `https` sites, created hidden at start-up and only ever hidden,
never destroyed.

- `src/admission.rs` – which addresses may be opened (`validate_url`), with
  `url::Url::parse` behind one trusted wrapper.
- `src/ipv4.rs`, `src/text.rs` – IPv4 literals, trimming, ASCII case, UTF-8 size.
- `src/labels.rs` – window labels of the slot pool (`label_of`).
- `src/navigation.rs` – the remembered address, when an open request navigates,
  and the state shown to extensions.
- `src/open_flow.rs` – the order of an open request, as a state machine whose
  actions the application performs on the window.
- `src/geometry.rs` – placement decisions and the settings merge.
- `src/debounce.rs` – the decisions of the geometry-write debounce, and a model
  of the events and the writer task interleaved, proved to leave no event
  unwritten.
- `app/` – the Tauri glue: windows, threads, settings file, commands.
