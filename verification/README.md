# meridian

The membership layer of a small Raft-based cluster: each node keeps
a list of its peers (alive, suspected, confirmed as failed), gossips that
list in UDP messages, and runs a SWIM-style failure detector over it. The
crate also holds the payload documents of the cluster's Raft RPCs and the
short word codecs of its multicast, join, maintenance and dissemination
components.

## Layout

- `src/` is the library, verified with Verus. Every function states what it
  returns or changes in its contract, and the laws of the membership list,
  the message documents, the failure detector and the address texts are
  proof functions beside the code they are about.
  - `net`, `ipv6`, `text`: IPv4, IPv6 and socket addresses, ports, decimal
    and hexadecimal text, with parsers proved to read back exactly what the
    printers write.
  - `node`: cluster nodes and their UUID identifiers (generated, printed and
    read by the `uuid` crate).
  - `flex`: documents (maps, vectors, strings, numbers) as the wire format
    holds them.
  - `encoding`: writes documents as FlexBuffers bytes with the `flexbuffers`
    crate's builder.
  - `membership`: the member list, the gossip message documents, what a
    received message changes, the failure detector's protocol period as a
    state machine, and the membership service's steps.
  - `communication`: the word codecs and tables of the multicast, join,
    maintenance and dissemination components.
  - `rpc`, `grpc`, `channel`: RPC payload documents and the requests,
    answers and signals passed between the server's tasks.
- `tests/` runs the library on concrete values.
- `app/` is the `meridian` program: argument handling, the UDP sockets, the
  tokio tasks that carry out what the library decides, and the reading of
  FlexBuffers bytes back into documents.
