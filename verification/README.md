# knative_explorer

The verified core of a menu-bar app that monitors Knative services on Kubernetes.

- `src/` is the library, verified with Verus: how listed Knative services, revisions,
  Traefik ingress routes, pods and events become the service summaries the UI shows
  (readiness, external URL, image, running pods, recent events), the sorted namespace list,
  the combined pod logs, and which services a burst of watch notifications refreshes.
  `src/laws.rs` states properties that span these functions.
- `app/` is the Tauri backend around it: Kubernetes and HTTP requests, serde/CRD forms of
  the types, IPC commands, watch streams and the tray icon.
- `tests/` runs the library on concrete values.
