# whale_land

A Wayland client core whose logic is verified with Verus.

`src/` is the verified library:

- `wire` — the native-endian encoding of 32-bit words;
- `packet` — building packets argument by argument, serializing them, and
  reading arguments back with `PacketReader`; the laws at the end of the file
  state that every read gives back what the matching push wrote;
- `connection` — decoding the fixed header of a received packet and the
  registry of event handlers that incoming packets are dispatched to;
- `fixed` — 24.8 fixed-point numbers and their integer conversions;
- `shared_memory` — open flags, metadata and mapping ranges of POSIX shared
  memory objects;
- `model`, `xml`, `text`, `protocol_xml`, `iter_ext` — reading an XML protocol
  description into the protocol model: `xml` parses the text with
  `sxd_document` into the library's document tree, and `protocol_xml` reads
  that tree; the laws at the end of `protocol_xml` state that each element
  lists what its children describe, in document order.

`app/` holds what cannot be verified: the socket and its locks, the system
calls for shared memory, floating-point conversions, and the command-line
program that reads a protocol description and prints its model.

`tests/` runs the library on concrete values.
