# media_server (transcription)

Real-time transcription support for a WebRTC SFU: audio is taken out of RTP
packets, decoded from OPUS and resampled to 16 kHz, and sent to a
transcription backend (a SimulStreaming server over TCP, or an OpenAI-style
HTTP API); replies come back as timed text segments.

Layout:

- `src/` — the verified library (Verus):
  - `rtp.rs`: RTP header parsing, SSRC routing and auto-learning, worker commands;
  - `wav.rs`: little-endian PCM bytes and WAV files;
  - `text.rs`: whitespace, trimming, and splitting of SimulStreaming result lines;
  - `openai.rs`: endpoint URLs, audio batching and the stream clock of the HTTP backend;
  - `chunker.rs`: fixed-size chunking of samples for the resampler;
  - `config.rs`, `sessions.rs`, `table.rs`: configuration, backend choice,
    session bookkeeping and round-robin server choice;
  - `signaling.rs`: choice of the media port serving a session;
  - `backend.rs`: the blocking backend interface.
- `app/` — the I/O around it: TCP/HTTP clients, OPUS decoding, floating-point
  resampling, locking, and the worker thread.
- `tests/` — tests of the library.
