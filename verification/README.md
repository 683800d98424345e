# nvenc_vaapi_driver

The logic of a VA-API driver that encodes H.264 on NVIDIA's NVENC, written in
Rust and proved with Verus.

- `src/ids.rs`: generational ID pools on `slotmap`.
- `src/error.rs`, `src/va.rs`: driver errors, VA statuses and constants.
- `src/bytes.rs`, `src/h264.rs`, `src/rates.rs`: the client's parameter buffers.
- `src/nvenc/`: presets, encoder configuration and the encode session.
- `src/cuda/`: the CUDA context and DMA-BUF import.
- `src/driver/`: configs, surfaces, contexts, buffers, images and pictures.
- `app/`: the shared object that libva loads. It performs the calls into CUDA,
  NVENC and the kernel.
- `tests/`: tests of the library on concrete values.

An operation that must ask CUDA or NVENC is a step machine: it hands out the
next call with a run value, and is resumed with the answer. What has to be given
back is handed out as a list of releases, to be made in order. So every decision
is a verified function of plain values.
