# rport

RPort forwards ports between machines over WebRTC. An agent runs next to the services, a client
next to whoever wants to reach them, and a server introduces them to each other.

The library in `src/` holds what the programs decide and compute, verified with Verus. The programs
in `app/` do the reading, sending and drawing.

## Layout

| Module | What it is about |
| --- | --- |
| `acl` | which addresses and ports an agent may connect to |
| `agent` | registration, admission of targets, sessions, retransmission |
| `cli`, `config`, `startup` | what was asked for, and what the program does about it |
| `client` | ICE servers, offers, listeners, and the handshake with an agent |
| `dtls_signaling`, `frame` | signaling messages, and the frames that carry them |
| `forward` | a stream that goes through a data channel |
| `known_hosts` | fingerprints of hosts that were accepted |
| `peer` | descriptions and candidates of a peer connection |
| `registry`, `text` | named entries; splitting, trimming and numbers |
| `reliable` | numbers, acknowledgements and retransmission of messages |
| `server` | certificates, HTTP and DTLS signaling, the TURN server |
| `ui` | the clients of the window, its events, its log and its numbers |
| `webrtc_config` | settings of the WebRTC stack |

What spans several calls is stated by the proof functions whose names begin with `law_`.

## Programs

One binary serves as `rport`, `rport-server` and `rport-ui`; the name that it is called by decides.

```
rport-server --addr 0.0.0.0:3000 --dtls-addr 0.0.0.0:8443
rport -A 22 -i my-server -k secret-token -s your-server.com:8443
rport -L 8080:127.0.0.1:22 -i my-server -k secret-token -s your-server.com:8443
ssh -o ProxyCommand='rport -i my-server -k secret-token -s your-server.com:8443' user@localhost
```

An access rule is a network and ports, as in `10.0.0.0/8:3000-4000,5432`, or ports alone, which are
then ports of the agent's own machine.
