# lanscanner

The rules of a LAN scanner, verified with Verus: reading neighbor tables,
recognising devices from their MAC vendor and host names, ordering and
layering scan results, and the state of a scan session with its credential
verification runs.

Layout:

- `src/text.rs`, `src/ipv4.rs`: character classes, trimming, searching,
  splitting, decimal numbers and dotted IPv4 addresses over `Seq<char>`.
- `src/order.rs`: the scan-result order (IPv4 value, else text, then id), a
  stable sort over it, and its laws (transitivity for addresses of one form,
  uniqueness of the sorted arrangement).
- `src/vendor.rs`, `src/identity.rs`: OUI vendors and device classification.
- `src/scanner.rs`: devices, evidence by address, layered scan results.
- `src/neighbor.rs`: rows of `Get-NetNeighbor`, `ip neigh`, `arp -a` and the
  macOS helper, and the helper's interface rows.
- `src/session.rs`: the scan session as a state machine driven by events.
- `src/connect.rs`: the course of a connection launch (waiting tool,
  status line, final notice) as steps the caller carries out.
- `src/device_list.rs`, `src/dropdown.rs`, `src/networks.rs`,
  `src/notice.rs`, `src/labels.rs`: what the interface shows.
- `app/main.rs`: a command-line front end that reads the neighbor table,
  probes SSH ports and prints the result.
