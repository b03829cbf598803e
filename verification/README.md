# mumble-web-proxy

The logic of a proxy between Mumble web clients and a Mumble server, verified with Verus.

A web client that asks for WebRTC gets the voice of the other users as RTP packets over a media
channel of its own, secured by DTLS and found by ICE. The server keeps speaking plain Mumble. The
proxy gives each user an RTP source, turns Mumble's voice packets into RTP packets and back, tells
the client who is talking, and passes everything else on as it is.

- `src/` is the library. It does no I/O: a `Connection` is told what has happened (`Event`) and
  answers what is to be done next (`Action`). `model.rs` and `schedule.rs` say what a connection
  does, `laws.rs` says what follows from it, and `connection.rs` does it.
- `app/` runs a connection over real transports: it performs the actions with `tokio`, `futures`,
  `openssl` and `libnice`, and converts the packets of `mumble-protocol`. The DTLS-SRTP layer is
  handed in by the caller.
- `tests/` runs the library, with the transports played by a harness.

Outside crates are called in four places. `media.rs` has `rtp` read and write RTP packets,
`candidate.rs` has `webrtc-sdp` read and write ICE candidates, `certificate.rs` has `openssl` make
the key and the certificate, and `identity.rs` has it compute the certificate's digest. What is
believed of each call stands above its wrapper.

Time is counted in milliseconds from any fixed start. RTP numbers and timestamps wrap around. A
connection can give out 2^32 - 2 sources at a time; a packet that would need one more is not
accepted.
