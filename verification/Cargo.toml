[package]
name = "grid_sequencer"
version = "0.1.0"
edition = "2021"
publish = false

[dependencies]
screech = "*"
wavv = "*"
cpal = "*"
ncurses = "*"
wasm-bindgen = "*"
js-sys = "*"
console_error_panic_hook = "*"
wee_alloc = "*"
web-sys = { version = "*", features = ["console", "Window", "Document", "Element", "HtmlCanvasElement", "CanvasRenderingContext2d", "KeyboardEvent", "DragEvent", "DataTransfer", "Event", "EventTarget", "AudioContext", "BaseAudioContext", "AudioBuffer", "AudioBufferSourceNode", "AudioDestinationNode", "AudioNode", "AudioScheduledSourceNode"] }
