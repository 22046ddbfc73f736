//! Verified core of a desktop capture-and-translate helper.
//!
//! The library holds the pure logic of the helper: the method and proxy
//! planning of the request dispatcher, the text normalization of the OCR
//! pipeline, the dependency probe readers, the cursor-location parser of
//! the capture orchestrator, and the shared shortcut/proxy configuration
//! store.  The surrounding process, clipboard, network and window effects
//! live outside and hand plain values in.

pub mod text;
pub mod gateway;
pub mod request;
pub mod ocr;
pub mod probe;
pub mod capture;
pub mod state;
