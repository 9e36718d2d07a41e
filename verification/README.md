# nicocast-v2

A Miracast (Wi-Fi Display) sink for the Raspberry Pi Zero 2W, with its logic
verified in Verus.

* `src/` is the verified library: the RTSP control plane, the configuration and
  its validation, the WFD and WPS encodings, and the decisions of the P2P
  manager, the video pipeline, the AirPlay supervisor and the start-up check.
* `app/` is the program around it: sockets, D-Bus, GStreamer, child processes
  and log files.  It needs the GStreamer libraries (`gstreamer` 0.25) to build.
* `tests/` runs the library on concrete messages and settings.

## What the contracts say

Every message, line of a report and argument list is described as a sequence of
characters, and each function states exactly which one it produces.  Properties
that hold across functions are proof functions whose names begin with `law_`:
a request reaches the sink as it was meant, and exactly when its last byte has
arrived, however it was cut into reads; every answer declares the length of its
own body; a session lives from `SETUP` to `TEARDOWN`; a valid configuration
always yields WFD information elements; hex encoding and decoding are inverse.

## What is trusted

* `bytes::BytesMut`, as the buffer of a connection (`src/buffer.rs`)
* `std::str::from_utf8` and `String::push` (`src/text.rs`)
* `std::time::SystemTime::now` and `duration_since`, for session IDs (`src/rtsp.rs`)
