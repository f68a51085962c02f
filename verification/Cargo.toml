[package]
name = "single_player_game_physics"
version = "0.1.0"
edition = "2021"
publish = false

[dependencies]
awsm-audio-player = "2.5"
awsm-audio-schema = "2.5"
awsm-audio-worklet = "2.5"
awsm-renderer = "0.15"
awsm-renderer-core = "0.15"
awsm-renderer-scene = "0.15"
awsm-renderer-scene-loader = "0.15"
dominator = "0.5"
futures = "0.3"
futures-signals = "0.3"
glam = "0.32"
gloo-net = "*"
libm = "0.2"
serde = { version = "1", features = ["derive"] }
serde-wasm-bindgen = "*"
toml = "*"
tracing = "0.1"
tracing-subscriber = { version = "0.3", features = ["env-filter"] }
tracing-web = "*"
wasm-bindgen = "0.2"
wasm-bindgen-futures = "0.4"
web-sys = { version = "0.3", features = ["Window", "Document", "Element", "Node", "Event", "EventTarget", "HtmlElement", "HtmlCanvasElement", "HtmlInputElement", "KeyboardEvent", "MouseEvent", "PointerEvent", "WheelEvent", "MessageEvent", "Worker", "WorkerOptions", "WorkerType", "Blob", "BlobPropertyBag", "Url", "UrlSearchParams", "ErrorEvent", "console", "Storage", "Location", "MediaQueryList", "ResizeObserver", "ResizeObserverEntry", "DomRectReadOnly", "DomTokenList", "DedicatedWorkerGlobalScope", "OffscreenCanvas", "Performance", "RequestCache", "Gpu", "GpuAdapter", "GpuAdapterInfo", "GpuSupportedLimits"] }
